//! Version identifiers reported by the `version` command.

use vstd::prelude::*;

verus! {

/// The shell's version.
pub struct RnixVersion {
    pub version: &'static str,
}

/// Get the shell's version.
pub fn get_rnix_version() -> (v: RnixVersion)
    ensures
        v.version@ == "1.0.0"@,
{
    RnixVersion { version: "1.0.0" }
}

/// The version of the shell's command interface.
pub struct RnixApiVersion {
    pub version: &'static str,
}

/// Get the version of the shell's command interface.
pub fn get_rnix_api_version() -> (v: RnixApiVersion)
    ensures
        v.version@ == "1.0.0"@,
{
    RnixApiVersion { version: "1.0.0" }
}

} // verus!
