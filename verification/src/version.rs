//! Semantic versions and version requirements.
//!
//! A `Version` is a `major.minor.patch` triple ordered lexicographically. A
//! `VersionReq` is a predicate over versions used to select deployments from
//! the package index.

use vstd::prelude::*;

verus! {

/// A semantic version: `major.minor.patch`.
#[derive(Clone, Copy, Debug, PartialEq, Eq, Structural, Hash)]
pub struct Version {
    pub major: u64,
    pub minor: u64,
    pub patch: u64,
}

impl Version {
    /// Lexicographic order on (major, minor, patch).
    pub open spec fn spec_lt(self, other: Version) -> bool {
        self.major < other.major || (self.major == other.major && (self.minor < other.minor
            || (self.minor == other.minor && self.patch < other.patch)))
    }

    pub open spec fn spec_le(self, other: Version) -> bool {
        self.spec_lt(other) || self == other
    }

    pub fn new(major: u64, minor: u64, patch: u64) -> (v: Version)
        ensures
            v == (Version { major, minor, patch }),
    {
        Version { major, minor, patch }
    }

    /// Strict lexicographic comparison.
    pub fn lt(&self, other: &Version) -> (r: bool)
        ensures
            r == self.spec_lt(*other),
    {
        if self.major != other.major {
            self.major < other.major
        } else if self.minor != other.minor {
            self.minor < other.minor
        } else {
            self.patch < other.patch
        }
    }

    pub fn le(&self, other: &Version) -> (r: bool)
        ensures
            r == self.spec_le(*other),
    {
        if self.major != other.major {
            self.major < other.major
        } else if self.minor != other.minor {
            self.minor < other.minor
        } else {
            self.patch <= other.patch
        }
    }
}

/// A requirement over versions, used to resolve deployments.
#[derive(Clone, Copy, Debug, PartialEq, Eq, Structural)]
pub enum VersionReq {
    /// Matches every version.
    Any,
    /// Matches exactly one version.
    Exact(Version),
    /// A caret requirement: compatible upgrades from the base version.
    Caret(Version),
}

/// Whether `v` is a compatible upgrade of `base` in the caret sense:
/// at least `base`, and with the same leftmost non-zero component, so
/// `^1.2.3` admits `1.2.3` up to but not including `2.0.0`, `^0.2.3` up to
/// `0.3.0`, and `^0.0.3` only `0.0.3` itself.
pub open spec fn spec_caret_matches(base: Version, v: Version) -> bool {
    base.spec_le(v) && if base.major > 0 {
        v.major == base.major
    } else if base.minor > 0 {
        v.major == 0 && v.minor == base.minor
    } else {
        v == base
    }
}

impl VersionReq {
    /// Which versions the requirement admits.
    pub open spec fn spec_matches(self, v: Version) -> bool {
        match self {
            VersionReq::Any => true,
            VersionReq::Exact(base) => v == base,
            VersionReq::Caret(base) => spec_caret_matches(base, v),
        }
    }

    /// Whether the version satisfies the requirement.
    pub fn matches(&self, v: &Version) -> (r: bool)
        ensures
            r == self.spec_matches(*v),
    {
        match self {
            VersionReq::Any => true,
            VersionReq::Exact(base) => base.major == v.major && base.minor == v.minor
                && base.patch == v.patch,
            VersionReq::Caret(base) => {
                if !base.le(v) {
                    return false;
                }
                if base.major > 0 {
                    v.major == base.major
                } else if base.minor > 0 {
                    v.major == 0 && v.minor == base.minor
                } else {
                    v.major == base.major && v.minor == base.minor && v.patch == base.patch
                }
            },
        }
    }
}

} // verus!
