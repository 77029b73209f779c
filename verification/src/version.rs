//! The version that the server reports.

use vstd::prelude::*;

verus! {

/// The answer to a request for the version.
pub struct VersionInfo {
    pub version: String,
}

/// The version of this library.
pub open spec fn package_version() -> Seq<char> {
    "0.1.0"@
}

/// The version of this library.
pub fn version() -> (info: VersionInfo)
    ensures
        info.version@ == package_version(),
{
    VersionInfo { version: "0.1.0".to_owned() }
}

} // verus!
