use vstd::prelude::*;

verus! {

/// The registry key, under the current user, that holds the program's values.
pub const APP_KEY: &'static str = "Software\\WinSoftVol";

/// The registry value that records the forced software-volume mode.
pub const VALUE: &'static str = "ForceSwVolume";

/// Whether the forced software-volume mode is on, given the number stored
/// in the registry (`None` when nothing could be read): any stored number
/// but zero turns it on.
pub open spec fn spec_enabled_from_stored(stored: Option<u32>) -> bool {
    stored matches Some(v) && v != 0
}

/// Reads the forced software-volume mode from the number stored in the registry.
pub fn enabled_from_stored(stored: Option<u32>) -> (r: bool)
    ensures
        r == spec_enabled_from_stored(stored),
{
    match stored {
        Some(v) => v != 0,
        None => false,
    }
}

/// The number stored in the registry for the mode `enable`.
pub fn stored_value(enable: bool) -> (r: u32)
    ensures
        r == (if enable { 1u32 } else { 0u32 }),
        spec_enabled_from_stored(Some(r)) == enable,
{
    if enable {
        1
    } else {
        0
    }
}

} // verus!
