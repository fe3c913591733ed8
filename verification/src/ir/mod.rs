//! Intermediate representations: what decoders produce and encoders consume, one
//! per family of formats.
use vstd::prelude::*;

pub mod traits;
pub mod sums;
pub mod image;
pub mod audio;
pub mod document;
pub mod archive;
pub mod mesh;
pub mod table;
pub mod vector;
pub mod video;

verus! {

/// A span of time: whole seconds and the nanoseconds beyond them.
#[derive(Debug, Clone, Copy, PartialEq, Eq, Structural)]
pub struct TimeSpan {
    pub secs: u64,
    pub nanos: u32,
}

impl TimeSpan {
    /// The empty span.
    pub fn zero() -> (r: Self)
        ensures
            r.secs == 0 && r.nanos == 0,
    {
        TimeSpan { secs: 0, nanos: 0 }
    }
}

/// The version `major.minor.patch`, without pre-release or build metadata, as
/// `semver::Version::new` makes it.
pub uninterp spec fn version_of(major: u64, minor: u64, patch: u64) -> semver::Version;

/// Trusted: `semver::Version::new`. The version is opaque here: it is named after
/// its three numbers, nothing more is stated of it.
#[verifier::external_body]
fn semver_version(major: u64, minor: u64, patch: u64) -> (r: semver::Version)
    ensures
        r == version_of(major, minor, patch),
{
    semver::Version::new(major, minor, patch)
}

/// The current IR API version, 1.0.0.
pub fn api_version() -> (r: semver::Version)
    ensures
        r == version_of(1, 0, 0),
{
    semver_version(1, 0, 0)
}

} // verus!
