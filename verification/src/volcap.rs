use vstd::prelude::*;

use crate::config::{clamp_cap, spec_clamp_cap};

verus! {

/// The registry key, under the current user, that holds the program's values.
pub const APP_KEY: &'static str = "Software\\WinSoftVol";

/// The registry value that records the volume cap.
pub const VALUE: &'static str = "VolumeCapPercent";

/// The cap, in percent, when none is recorded.
pub const DEFAULT: u32 = 100;

/// The volume cap, given the number stored in the registry (`None` when
/// nothing could be read): the stored number, or `DEFAULT`, clamped into
/// the accepted range.
pub open spec fn spec_percent_from_stored(stored: Option<u32>) -> u32 {
    spec_clamp_cap(
        match stored {
            Some(v) => v,
            None => DEFAULT,
        },
    )
}

/// Reads the volume cap from the number stored in the registry.
pub fn percent_from_stored(stored: Option<u32>) -> (r: u32)
    ensures
        r == spec_percent_from_stored(stored),
{
    match stored {
        Some(v) => clamp_cap(v),
        None => clamp_cap(DEFAULT),
    }
}

/// The number stored in the registry for the cap `percent`: the cap clamped
/// into the accepted range.
pub fn stored_value(percent: u32) -> (r: u32)
    ensures
        r == spec_clamp_cap(percent),
        spec_percent_from_stored(Some(r)) == r,
{
    clamp_cap(percent)
}

} // verus!
