//! Choices made before a session starts: which port, at which baud rate.
use vstd::prelude::*;

verus! {

/// The rate a session uses when none is chosen.
pub const DEFAULT_BAUD_RATE: u32 = 9_600;

/// The baud rates a session may be opened at.
pub open spec fn is_supported_baud_spec(rate: u32) -> bool {
    rate == 300 || rate == 600 || rate == 750 || rate == 1_200 || rate == 2_400 || rate == 4_800
        || rate == 9_600 || rate == 19_200 || rate == 31_250 || rate == 38_400 || rate == 57_600
        || rate == 74_880 || rate == 115_200
}

pub fn is_supported_baud(rate: u32) -> (r: bool)
    ensures
        r == is_supported_baud_spec(rate),
{
    rate == 300 || rate == 600 || rate == 750 || rate == 1_200 || rate == 2_400 || rate == 4_800
        || rate == 9_600 || rate == 19_200 || rate == 31_250 || rate == 38_400 || rate == 57_600
        || rate == 74_880 || rate == 115_200
}

/// The port selected before the user picks one: the first one listed.
pub fn default_port(ports: &Vec<String>) -> (r: Option<String>)
    ensures
        ports@.len() == 0 ==> r is None,
        ports@.len() > 0 ==> r is Some && r->Some_0@ == ports@[0]@,
{
    if ports.len() == 0 {
        None
    } else {
        Some(ports[0].clone())
    }
}

} // verus!
