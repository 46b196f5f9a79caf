//! Reading a CPU temperature from the text that a thermal-zone query prints.
//!
//! The query itself (a subprocess) is run by the calling application; this
//! library turns its output into an exact fixed-point reading.
use vstd::prelude::*;

pub mod lemmas;
pub mod parse;
pub mod reading;
pub mod text;

verus! {

} // verus!
