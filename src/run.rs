//! What a measurement was taken under, and the measurements themselves.
use vstd::prelude::*;
use crate::patch::Patch;
use crate::perf_stat::SelfProfile;
use crate::stats::Stats;

verus! {

/// The incremental-compilation condition a run was measured under.
#[derive(Debug)]
pub enum BenchmarkState {
    Clean,
    Nll,
    IncrementalStart,
    IncrementalClean,
    IncrementalPatched(Patch),
}

/// What identifies a state: its variant and, for a patched run, the patch name.
pub open spec fn state_key(s: BenchmarkState) -> (int, Seq<char>) {
    match s {
        BenchmarkState::Clean => (0, Seq::empty()),
        BenchmarkState::Nll => (1, Seq::empty()),
        BenchmarkState::IncrementalStart => (2, Seq::empty()),
        BenchmarkState::IncrementalClean => (3, Seq::empty()),
        BenchmarkState::IncrementalPatched(p) => (4, p.name@),
    }
}

pub open spec fn state_name(s: BenchmarkState) -> Seq<char> {
    match s {
        BenchmarkState::Clean => "clean"@,
        BenchmarkState::Nll => "nll"@,
        BenchmarkState::IncrementalStart => "baseline incremental"@,
        BenchmarkState::IncrementalClean => "clean incremental"@,
        BenchmarkState::IncrementalPatched(p) => "patched incremental: "@ + p.name@,
    }
}

impl Clone for BenchmarkState {
    fn clone(&self) -> (r: Self)
        ensures
            r == *self,
    {
        match self {
            BenchmarkState::Clean => BenchmarkState::Clean,
            BenchmarkState::Nll => BenchmarkState::Nll,
            BenchmarkState::IncrementalStart => BenchmarkState::IncrementalStart,
            BenchmarkState::IncrementalClean => BenchmarkState::IncrementalClean,
            BenchmarkState::IncrementalPatched(p) => BenchmarkState::IncrementalPatched(p.clone()),
        }
    }
}

impl PartialEq for BenchmarkState {
    fn eq(&self, other: &BenchmarkState) -> (r: bool) {
        match (self, other) {
            (BenchmarkState::Clean, BenchmarkState::Clean) => true,
            (BenchmarkState::Nll, BenchmarkState::Nll) => true,
            (BenchmarkState::IncrementalStart, BenchmarkState::IncrementalStart) => true,
            (BenchmarkState::IncrementalClean, BenchmarkState::IncrementalClean) => true,
            (BenchmarkState::IncrementalPatched(a), BenchmarkState::IncrementalPatched(b)) => a.name
                == b.name,
            _ => false,
        }
    }
}

impl vstd::std_specs::cmp::PartialEqSpecImpl for BenchmarkState {
    open spec fn obeys_eq_spec() -> bool {
        true
    }

    open spec fn eq_spec(&self, other: &BenchmarkState) -> bool {
        state_key(*self) == state_key(*other)
    }
}

impl Eq for BenchmarkState {}

impl BenchmarkState {
    pub fn is_base_compile(&self) -> (r: bool)
        ensures
            r == (*self is Clean),
    {
        if let BenchmarkState::Clean = *self {
            true
        } else {
            false
        }
    }

    pub fn is_patch(&self) -> (r: bool)
        ensures
            r == (*self is IncrementalPatched),
    {
        if let BenchmarkState::IncrementalPatched(_) = *self {
            true
        } else {
            false
        }
    }

    /// The display name of the state.
    pub fn name(&self) -> (r: String)
        ensures
            r@ == state_name(*self),
    {
        match self {
            BenchmarkState::Clean => String::from_str("clean"),
            BenchmarkState::Nll => String::from_str("nll"),
            BenchmarkState::IncrementalStart => String::from_str("baseline incremental"),
            BenchmarkState::IncrementalClean => String::from_str("clean incremental"),
            BenchmarkState::IncrementalPatched(patch) => {
                let mut s = String::from_str("patched incremental: ");
                s.append(patch.name.as_str());
                s
            },
        }
    }

    /// The state with the patch's index and file forgotten, so that the same
    /// patch read from differently numbered files gives equal states.
    pub fn erase_path(self) -> (r: Self)
        ensures
            state_key(r) == state_key(self),
            match r {
                BenchmarkState::IncrementalPatched(p) => p.index == 0 && p.path@.len() == 0,
                _ => true,
            },
            !(self is IncrementalPatched) ==> r == self,
    {
        match self {
            BenchmarkState::IncrementalPatched(patch) => BenchmarkState::IncrementalPatched(
                Patch { index: 0, name: patch.name, path: String::new() },
            ),
            other => other,
        }
    }
}

/// The identity of a run, independent of its measurements.
#[derive(Debug)]
pub struct RunId {
    pub check: bool,
    pub release: bool,
    pub state: BenchmarkState,
}

pub open spec fn run_id_key(id: RunId) -> (bool, bool, (int, Seq<char>)) {
    (id.check, id.release, state_key(id.state))
}

pub open spec fn run_id_name(id: RunId) -> Seq<char> {
    run_label(id.check, id.release, id.state)
}

/// A state's name followed by `-opt` for release builds or `-check` for
/// check builds.
pub open spec fn run_label(check: bool, release: bool, state: BenchmarkState) -> Seq<char> {
    state_name(state) + if release {
        "-opt"@
    } else if check {
        "-check"@
    } else {
        Seq::<char>::empty()
    }
}

impl Clone for RunId {
    fn clone(&self) -> (r: Self)
        ensures
            r == *self,
    {
        RunId { check: self.check, release: self.release, state: self.state.clone() }
    }
}

impl PartialEq for RunId {
    fn eq(&self, other: &RunId) -> (r: bool) {
        self.check == other.check && self.release == other.release && self.state == other.state
    }
}

impl vstd::std_specs::cmp::PartialEqSpecImpl for RunId {
    open spec fn obeys_eq_spec() -> bool {
        true
    }

    open spec fn eq_spec(&self, other: &RunId) -> bool {
        run_id_key(*self) == run_id_key(*other)
    }
}

impl Eq for RunId {}

impl RunId {
    /// The display name: the state's name, then `-opt` or `-check`.
    pub fn name(&self) -> (r: String)
        ensures
            r@ == run_id_name(*self),
    {
        let mut s = self.state.name();
        if self.release {
            s.append("-opt");
        } else if self.check {
            s.append("-check");
        }
        proof {
            if !self.release && !self.check {
                assert(s@ + Seq::<char>::empty() == s@);
            }
        }
        s
    }
}

/// One completed measurement of a benchmark.
#[derive(Debug)]
pub struct Run {
    pub stats: Stats,
    pub self_profile: Option<SelfProfile>,
    pub check: bool,
    pub release: bool,
    pub state: BenchmarkState,
}

impl Clone for Run {
    fn clone(&self) -> (r: Self)
        ensures
            r.stats@ == self.stats@,
            r.stats.wf() == self.stats.wf(),
            r.self_profile == self.self_profile,
            r.check == self.check,
            r.release == self.release,
            r.state == self.state,
    {
        let self_profile = match &self.self_profile {
            Some(p) => Some(p.clone()),
            None => None,
        };
        Run {
            stats: self.stats.clone(),
            self_profile,
            check: self.check,
            release: self.release,
            state: self.state.clone(),
        }
    }
}

/// The identity key of a run.
pub open spec fn run_key(r: Run) -> (bool, bool, (int, Seq<char>)) {
    (r.check, r.release, state_key(r.state))
}

impl Run {
    pub fn is_clean(&self) -> (r: bool)
        ensures
            r == (self.state is Clean),
    {
        self.state.is_base_compile()
    }

    pub fn is_nll(&self) -> (r: bool)
        ensures
            r == (self.state is Nll),
    {
        if let BenchmarkState::Nll = self.state {
            true
        } else {
            false
        }
    }

    pub fn is_base_incr(&self) -> (r: bool)
        ensures
            r == (self.state is IncrementalStart),
    {
        if let BenchmarkState::IncrementalStart = self.state {
            true
        } else {
            false
        }
    }

    pub fn is_clean_incr(&self) -> (r: bool)
        ensures
            r == (self.state is IncrementalClean),
    {
        if let BenchmarkState::IncrementalClean = self.state {
            true
        } else {
            false
        }
    }

    /// Whether the run applied the patch named `println`.
    pub fn is_println_incr(&self) -> (r: bool)
        ensures
            r == (self.state matches BenchmarkState::IncrementalPatched(p) && p.name@ == "println"@),
    {
        if let BenchmarkState::IncrementalPatched(patch) = &self.state {
            let println = String::from_str("println");
            return patch.name == println;
        }
        false
    }

    /// The identity of the run, with the patch's index and file erased.
    pub fn id(&self) -> (r: RunId)
        ensures
            run_id_key(r) == run_key(*self),
            r.check == self.check,
            r.release == self.release,
            state_key(r.state) == state_key(self.state),
            match r.state {
                BenchmarkState::IncrementalPatched(p) => p.index == 0 && p.path@.len() == 0,
                _ => r.state == self.state,
            },
    {
        let state = self.state.clone().erase_path();
        RunId { check: self.check, release: self.release, state }
    }

    pub fn name(&self) -> (r: String)
        ensures
            r@ == run_label(self.check, self.release, self.state),
    {
        self.id().name()
    }

    /// Whether the run has the identity `id`.
    pub fn has_id(&self, id: &RunId) -> (r: bool)
        ensures
            r == (run_key(*self) == run_id_key(*id)),
    {
        self.release == id.release && self.check == id.check && self.state == id.state
    }

    /// The measurement of statistic `stat`, if the run has it.
    pub fn get_stat(&self, stat: &String) -> (r: Option<u128>)
        requires
            self.stats.wf(),
        ensures
            r == (if self.stats@.contains_key(stat@) {
                Some(self.stats@[stat@])
            } else {
                None::<u128>
            }),
    {
        self.stats.get(stat)
    }
}

} // verus!
