//! Extracting the first plausible temperature from thermal-zone query output.
//!
//! The output is a list of `Field : value` lines; a temperature line reads
//! `CurrentTemperature : <digits>`, the value being tenths of a kelvin.
use vstd::prelude::*;
use crate::reading::CpuTemperature;
use crate::text::{
    all_space, capped, chars_of, digits_value, find_line_end, is_blank, line_end, read_digits,
    skip_space, skip_spaces, take_digits,
};

verus! {

/// Why no temperature could be extracted.
#[derive(Debug, Clone, Copy, PartialEq, Eq, Structural)]
pub enum ParseError {
    /// The output was empty or whitespace only.
    NoData,
    /// The output held no temperature line with a plausible value.
    NoValidReading,
}

impl ParseError {
    /// A message for display.
    pub fn message(&self) -> (r: String)
        ensures
            *self == ParseError::NoData ==> r@ == "No temperature data received from WMI query. Check if thermal sensors are available."@,
            *self == ParseError::NoValidReading ==> r@ == "No valid temperature readings found in WMI output. The thermal zone sensors may not be accessible."@,
    {
        match self {
            ParseError::NoData => "No temperature data received from WMI query. Check if thermal sensors are available.".to_owned(),
            ParseError::NoValidReading => "No valid temperature readings found in WMI output. The thermal zone sensors may not be accessible.".to_owned(),
        }
    }
}

/// The name of the field that carries the temperature.
pub open spec fn field_name() -> Seq<char> {
    seq!['C', 'u', 'r', 'r', 'e', 'n', 't', 'T', 'e', 'm', 'p', 'e', 'r', 'a', 't', 'u', 'r', 'e']
}

/// The raw value (tenths of a kelvin) of a line of the form
/// `<ws> CurrentTemperature <ws> : <ws> <digits>`, read from its leading digits;
/// `None` for any other line.
pub open spec fn line_reading(line: Seq<char>) -> Option<nat> {
    let a = skip_space(line);
    if a.len() >= field_name().len() && a.take(field_name().len() as int) == field_name() {
        let b = skip_space(a.skip(field_name().len() as int));
        if b.len() > 0 && b[0] == ':' {
            let d = take_digits(skip_space(b.skip(1)));
            if d.len() > 0 {
                Some(digits_value(d))
            } else {
                None
            }
        } else {
            None
        }
    } else {
        None
    }
}

/// Celsius, in hundredths of a degree, of a raw value in tenths of a kelvin:
/// `raw / 10 - 273.15`.
pub open spec fn centi_celsius_of(raw: nat) -> int {
    10 * raw - 27315
}

/// A raw value is plausible when its Celsius value lies strictly between
/// -50 and 150 degrees.
pub open spec fn plausible(raw: nat) -> bool {
    -5000 < centi_celsius_of(raw) < 15000
}

/// The raw value of the first line of `s` that holds a plausible reading.
pub open spec fn first_plausible(s: Seq<char>) -> Option<nat>
    decreases s.len(),
{
    let e = line_end(s);
    let r = line_reading(s.take(e as int));
    if r is Some && plausible(r->0) {
        r
    } else if e >= s.len() {
        None
    } else {
        first_plausible(s.skip(e + 1 as int))
    }
}

/// What extracting a temperature from the output `s` gives: the Celsius value
/// (in hundredths) of the first plausible reading, else `NoData` for blank
/// output and `NoValidReading` otherwise.
pub open spec fn extract(s: Seq<char>) -> Result<int, ParseError> {
    match first_plausible(s) {
        Some(raw) => Ok(centi_celsius_of(raw)),
        None => if all_space(s) {
            Err(ParseError::NoData)
        } else {
            Err(ParseError::NoValidReading)
        },
    }
}

/// Whether `s[at..end]` begins with the temperature field's name.
fn field_at(s: &Vec<char>, at: usize, end: usize) -> (r: bool)
    requires
        at <= end <= s@.len(),
    ensures
        r == (end - at >= field_name().len() && s@.subrange(at as int, end as int).take(
            field_name().len() as int,
        ) == field_name()),
{
    let name = vec!['C', 'u', 'r', 'r', 'e', 'n', 't', 'T', 'e', 'm', 'p', 'e', 'r', 'a', 't', 'u', 'r', 'e'];
    assert(name@ =~= field_name());
    if end - at < name.len() {
        return false;
    }
    let mut j: usize = 0;
    while j < name.len()
        invariant
            at + name@.len() <= end <= s@.len(),
            name@ == field_name(),
            j <= name@.len(),
            forall|i: int| 0 <= i < j ==> s@[at + i] == name@[i],
        decreases name.len() - j,
    {
        if s[at + j] != name[j] {
            assert(s@.subrange(at as int, end as int).take(field_name().len() as int)[j as int]
                != field_name()[j as int]);
            return false;
        }
        j = j + 1;
    }
    assert(s@.subrange(at as int, end as int).take(field_name().len() as int) =~= field_name());
    true
}

/// The raw value that the line `s[start..end]` holds, capped at `NUMBER_CAP`.
fn read_line(s: &Vec<char>, start: usize, end: usize) -> (r: Option<u64>)
    requires
        start <= end <= s@.len(),
    ensures
        match line_reading(s@.subrange(start as int, end as int)) {
            Some(n) => r == Some(capped(n) as u64),
            None => r is None,
        },
{
    let a = skip_spaces(s, start, end);
    if !field_at(s, a, end) {
        return None;
    }
    // the field name is 18 characters long
    let b = skip_spaces(s, a + 18, end);
    assert(s@.subrange(a as int, end as int).skip(18) =~= s@.subrange(a + 18, end as int));
    if b >= end || s[b] != ':' {
        return None;
    }
    let c = skip_spaces(s, b + 1, end);
    assert(s@.subrange(b as int, end as int).skip(1) =~= s@.subrange(b + 1, end as int));
    let (k, value) = read_digits(s, c, end);
    if k == c {
        None
    } else {
        Some(value)
    }
}

/// Whether a raw value is plausible.
fn is_plausible(raw: u64) -> (r: bool)
    ensures
        r == plausible(raw as nat),
{
    2232 <= raw && raw <= 4231
}

impl CpuTemperature {
    /// Extracts the Celsius value, in hundredths of a degree, of the first
    /// plausible temperature line of `output`.
    pub fn parse_temperature(output: &str) -> (r: Result<i32, ParseError>)
        ensures
            match r {
                Ok(c) => extract(output@) == Ok::<int, ParseError>(c as int),
                Err(e) => extract(output@) == Err::<int, ParseError>(e),
            },
    {
        let s = chars_of(output);
        let mut start: usize = 0;
        assert(s@.subrange(0, s@.len() as int) =~= s@);
        loop
            invariant
                start <= s@.len(),
                first_plausible(s@) == first_plausible(s@.subrange(start as int, s@.len() as int)),
                s@ == output@,
            ensures
                first_plausible(s@) is None,
            decreases s@.len() - start,
        {
            let ghost rest = s@.subrange(start as int, s@.len() as int);
            let e = find_line_end(&s, start);
            assert(rest.take(e - start) =~= s@.subrange(start as int, e as int));
            let r = read_line(&s, start, e);
            if let Some(raw) = r {
                if is_plausible(raw) {
                    return Ok((10 * raw as i64 - 27315) as i32);
                }
            }
            if e >= s.len() {
                break;
            }
            assert(rest.skip(e - start + 1) =~= s@.subrange(e + 1, s@.len() as int));
            start = e + 1;
        }
        if is_blank(&s) {
            Err(ParseError::NoData)
        } else {
            Err(ParseError::NoValidReading)
        }
    }

    /// The reading that the query output `output` reports: its first plausible
    /// temperature line, in both scales.
    pub fn get(output: &str) -> (r: Result<CpuTemperature, ParseError>)
        ensures
            match r {
                Ok(t) => t.wf() && extract(output@) == Ok::<int, ParseError>(t.centi_celsius as int),
                Err(e) => extract(output@) == Err::<int, ParseError>(e),
            },
    {
        match CpuTemperature::parse_temperature(output) {
            Ok(c) => Ok(CpuTemperature::from_centi_celsius(c)),
            Err(e) => Err(e),
        }
    }
}

} // verus!
