//! The platform the application runs on.

use vstd::prelude::*;

verus! {

/// Describes the platform the application runs on.
pub trait PlatformInfo {
    /// The platform's short name.
    fn name(&self) -> &'static str;
}

/// macOS.
pub struct MacOsPlatform;

impl PlatformInfo for MacOsPlatform {
    fn name(&self) -> (r: &'static str)
        ensures
            r@ == "macos"@,
    {
        "macos"
    }
}

/// The platform this build describes.
pub fn current() -> (p: MacOsPlatform)
    ensures
        p == MacOsPlatform,
{
    MacOsPlatform
}

} // verus!
