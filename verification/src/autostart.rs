use vstd::prelude::*;

verus! {

/// The name under which the program is entered in the Run key.
pub const APP_NAME: &'static str = "WinSoftVol";

/// The registry key, under the current user, whose entries Windows starts at logon.
pub const RUN_KEY: &'static str = "Software\\Microsoft\\Windows\\CurrentVersion\\Run";

} // verus!
