//! Which released toolchains support incremental compilation.
use vstd::prelude::*;
use crate::text::{chars_of, starts_with, starts_with_spec, str_eq};

verus! {

/// What `semver::Version::parse` reads from `s`: major, minor and patch
/// numbers, and whether the pre-release part is empty; `None` when `s` is
/// no semantic version.
pub uninterp spec fn semver_of(s: Seq<char>) -> Option<(u64, u64, u64, bool)>;

/// Relies on `semver::Version::parse`: the version's numbers and whether it
/// has a pre-release part; an empty text is no version.
#[verifier::external_body]
fn parse_semver(s: &str) -> (r: Option<(u64, u64, u64, bool)>)
    ensures
        r == semver_of(s@),
        s@.len() == 0 ==> r is None,
{
    match semver::Version::parse(s) {
        Ok(v) => Some((v.major, v.minor, v.patch, v.pre.is_empty())),
        Err(_) => None,
    }
}

/// Whether a version with these parts is at least 1.24.0 in semantic-version
/// order, where a pre-release comes before its release.
pub open spec fn at_least_1_24(v: (u64, u64, u64, bool)) -> bool {
    v.0 > 1 || (v.0 == 1 && (v.1 > 24 || (v.1 == 24 && (v.2 > 0 || v.3))))
}

/// Whether the toolchain `version_str` (a version, `beta`, or a `master`
/// build) supports incremental compilation; `None` for any other name.
pub fn version_supports_incremental(version_str: &str) -> (r: Option<bool>)
    ensures
        match semver_of(version_str@) {
            Some(v) => r == Some(at_least_1_24(v)),
            None => if version_str@ == "beta"@ || starts_with_spec(version_str@, "master"@) {
                r == Some(true)
            } else {
                r is None
            },
        },
{
    match parse_semver(version_str) {
        Some(v) => Some(v.0 > 1 || (v.0 == 1 && (v.1 > 24 || (v.1 == 24 && (v.2 > 0 || v.3))))),
        None => {
            let c = chars_of(version_str);
            let m = chars_of("master");
            if str_eq(version_str, "beta") || starts_with(c.as_slice(), m.as_slice()) {
                Some(true)
            } else {
                None
            }
        },
    }
}

} // verus!
