//! Vulkan versions.
use vstd::prelude::*;

verus! {

/// A Vulkan API version.
#[derive(Clone, Copy, Debug, PartialEq, Eq, Structural)]
pub struct Version {
    pub major: u32,
    pub minor: u32,
    pub patch: u32,
}

impl Version {
    /// Whether this version is the same as `other` or comes before it.
    pub open spec fn le(self, other: Version) -> bool {
        ||| self.major < other.major
        ||| self.major == other.major && self.minor < other.minor
        ||| self.major == other.major && self.minor == other.minor && self.patch <= other.patch
    }

    /// The earlier of two versions.
    pub open spec fn lower(self, other: Version) -> Version {
        if self.le(other) {
            self
        } else {
            other
        }
    }

    /// Whether this version is the same as `other` or comes before it.
    pub fn at_most(&self, other: &Version) -> (at_most: bool)
        ensures
            at_most == self.le(*other),
    {
        if self.major != other.major {
            self.major < other.major
        } else if self.minor != other.minor {
            self.minor < other.minor
        } else {
            self.patch <= other.patch
        }
    }

    /// The earlier of two versions.
    pub fn min(self, other: Version) -> (earlier: Version)
        ensures
            earlier == self.lower(other),
    {
        if self.at_most(&other) {
            self
        } else {
            other
        }
    }
}

} // verus!
