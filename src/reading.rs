//! The temperature reading value type.
use vstd::prelude::*;

verus! {

/// Fahrenheit, in thousandths of a degree, of a Celsius value given in
/// hundredths of a degree: `F = C * 9 / 5 + 32`, which is exact in these units.
pub open spec fn milli_fahrenheit_of(centi_celsius: int) -> int {
    18 * centi_celsius + 32000
}

/// A CPU temperature reading in both scales.
///
/// Celsius is held in hundredths of a degree and Fahrenheit in thousandths,
/// so that the Fahrenheit value is always exactly the affine image of the
/// Celsius one.
#[derive(Debug, Clone, Copy, PartialEq, Eq, Structural)]
pub struct CpuTemperature {
    /// Temperature in hundredths of a degree Celsius.
    pub centi_celsius: i32,
    /// Temperature in thousandths of a degree Fahrenheit.
    pub milli_fahrenheit: i64,
}

impl CpuTemperature {
    /// The Fahrenheit field is derived from the Celsius field.
    pub open spec fn wf(&self) -> bool {
        self.milli_fahrenheit == milli_fahrenheit_of(self.centi_celsius as int)
    }

    /// Builds a reading from a Celsius value in hundredths of a degree.
    pub fn from_centi_celsius(centi_celsius: i32) -> (r: CpuTemperature)
        ensures
            r.wf(),
            r.centi_celsius == centi_celsius,
            r.milli_fahrenheit == 18 * centi_celsius + 32000,
    {
        let milli_fahrenheit: i64 = 18 * (centi_celsius as i64) + 32000;
        CpuTemperature { centi_celsius, milli_fahrenheit }
    }
}

} // verus!
