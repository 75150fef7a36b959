//! Commits and the measurements collected for them.
use vstd::prelude::*;
use crate::run::{Run, RunId};

verus! {

/// A UTC date and time.
#[derive(Clone, Copy, Debug, PartialEq, Eq, Structural)]
pub struct Date {
    pub year: i32,
    pub month: u32,
    pub day: u32,
    pub hour: u32,
    pub minute: u32,
    pub second: u32,
}

impl Date {
    pub fn ymd_hms(year: i32, month: u32, day: u32, hour: u32, minute: u32, second: u32) -> (r: Date)
        ensures
            r == (Date { year, month, day, hour, minute, second }),
    {
        Date { year, month, day, hour, minute, second }
    }
}

/// A compiler revision: its hash and its date. Commits are identified by
/// hash alone.
#[derive(Debug)]
pub struct Commit {
    pub sha: String,
    pub date: Date,
}

impl Clone for Commit {
    fn clone(&self) -> (r: Self)
        ensures
            r == *self,
    {
        Commit { sha: self.sha.clone(), date: self.date }
    }
}

impl PartialEq for Commit {
    fn eq(&self, other: &Commit) -> (r: bool) {
        self.sha == other.sha
    }
}

impl vstd::std_specs::cmp::PartialEqSpecImpl for Commit {
    open spec fn obeys_eq_spec() -> bool {
        true
    }

    open spec fn eq_spec(&self, other: &Commit) -> bool {
        self.sha@ == other.sha@
    }
}

impl Eq for Commit {}

/// Whether a date is the one that marks try builds, whose ancestry is not tracked.
pub open spec fn is_try_date(d: Date) -> bool {
    d.year == 2000 && d.month == 1 && d.day == 1
}

impl Commit {
    /// Whether this is a try build, dated 2000-01-01.
    pub fn is_try(&self) -> (r: bool)
        ensures
            r == is_try_date(self.date),
    {
        self.date.year == 2000 && self.date.month == 1 && self.date.day == 1
    }
}

/// The runs of one benchmark at one commit.
#[derive(Debug)]
pub struct Benchmark {
    pub runs: Vec<Run>,
    pub name: String,
}

/// The results of every benchmark at one commit: the runs, or the output of
/// the command that failed.
#[derive(Debug)]
pub struct CommitData {
    pub commit: Commit,
    pub benchmarks: Vec<(String, Result<Benchmark, String>)>,
    pub triple: String,
}

/// The results of every benchmark for a named artifact, such as a release.
#[derive(Debug)]
pub struct ArtifactData {
    pub id: String,
    pub benchmarks: Vec<(String, Result<Benchmark, String>)>,
}

/// A value at commit `sha` that was filled in rather than measured: the
/// whole benchmark, or only the run `run`.
#[derive(Debug)]
pub struct Interpolation {
    pub sha: String,
    pub benchmark: String,
    pub run: Option<RunId>,
}

} // verus!
