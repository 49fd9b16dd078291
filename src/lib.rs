//! Report descriptor generation and report translation for tablets that speak
//! the vendor protocol: capability text is parsed into the tablet's
//! dimensions, the dimensions give a standard HID report descriptor, and each
//! raw vendor report is translated into a report that follows it.
use vstd::prelude::*;

pub mod capabilities;
pub mod descriptor;
pub mod hex_text;
pub mod report;
pub mod sysfs;
pub mod text;
pub mod trace;

verus! {

} // verus!
