//! Commits waiting to be benchmarked, and the site's settings.
use vstd::prelude::*;
use crate::text::push_str;

verus! {

/// Why a commit is waiting to be benchmarked.
#[derive(Clone, Copy, Debug, PartialEq, Eq, Structural)]
pub enum MissingReason {
    /// The commit has not been benchmarked yet.
    Sha,
    TryParent,
    TryCommit,
}

/// A try build and the commit it is compared against.
#[derive(Debug, PartialEq, Eq)]
pub struct TryCommit {
    pub sha: String,
    pub parent_sha: String,
}

impl TryCommit {
    pub fn sha(&self) -> (r: &str)
        ensures
            r@ == self.sha@,
    {
        self.sha.as_str()
    }

    /// The page comparing the try build with its parent.
    pub fn comparison_url(&self) -> (r: String)
        ensures
            r@ == "https://perf.rust-lang.org/compare.html?start="@ + self.parent_sha@ + "&end="@ + self.sha@,
    {
        let mut v: Vec<char> = Vec::new();
        push_str(&mut v, "https://perf.rust-lang.org/compare.html?start=");
        push_str(&mut v, self.parent_sha.as_str());
        push_str(&mut v, "&end=");
        push_str(&mut v, self.sha.as_str());
        crate::text::string_of(v.as_slice())
    }
}

/// Credentials of the site.
#[derive(Debug, Default)]
pub struct Keys {
    pub github: Option<String>,
    pub secret: Option<String>,
}

/// Settings of the site: its keys and the commits never to benchmark.
#[derive(Debug)]
pub struct Config {
    pub keys: Keys,
    pub skip: Vec<String>,
}

} // verus!
