//! The aggregate-measurement strategy: sums the statistics of repeated
//! iterations per run kind and patch, and turns them into runs.
use vstd::prelude::*;
use crate::kinds::{BuildKind, RunKind};
use crate::patch::Patch;
use crate::perf_stat::{
    first_bad_line, lines_spec, perf_output_matches, process_perf_stat_output, profile_of,
    stats_of, DeserializeStatError, SelfProfile,
};
use crate::profiler::Profiler;
use crate::run::{state_key, BenchmarkState, Run};
use crate::stats::{combined, Stats};

verus! {

/// How many times an output without statistics is retried before it is fatal.
pub const MAX_TRIES: u8 = 5;

/// Whether a leaf execution should be repeated.
#[derive(Clone, Copy, Debug, PartialEq, Eq, Structural)]
pub enum Retry {
    No,
    Yes,
}

/// What a processor is told about the execution whose output it receives.
#[derive(Debug)]
pub struct ProcessOutputData {
    pub name: String,
    pub cwd: String,
    pub build_kind: BuildKind,
    pub run_kind: RunKind,
    pub run_kind_str: String,
    pub patch: Option<Patch>,
}

/// The state that measurements of a run kind are stored under.
pub open spec fn state_for(run_kind: RunKind, patch: Option<Patch>) -> BenchmarkState {
    match run_kind {
        RunKind::Full => BenchmarkState::Clean,
        RunKind::IncrFull => BenchmarkState::IncrementalStart,
        RunKind::IncrUnchanged => BenchmarkState::IncrementalClean,
        RunKind::IncrPatched => BenchmarkState::IncrementalPatched(patch->0),
    }
}

/// One accumulator: a state, the summed statistics, the latest self-profile.
pub type BucketView = (BenchmarkState, Map<Seq<char>, u128>, Option<Seq<char>>);

/// The payload of a self-profile, if any.
pub open spec fn profile_view(p: Option<SelfProfile>) -> Option<Seq<char>> {
    match p {
        Some(sp) => Some(sp.json@),
        None => None,
    }
}

/// The accumulators after adding `s` and `p` under `state`: summed into the
/// bucket of the same state, or a new bucket at the end. A profile replaces
/// the bucket's only when present.
pub open spec fn record_spec(
    b: Seq<BucketView>,
    state: BenchmarkState,
    s: Map<Seq<char>, u128>,
    p: Option<Seq<char>>,
) -> Seq<BucketView> {
    if exists|j: int| 0 <= j < b.len() && state_key(b[j].0) == state_key(state) {
        let j = choose|j: int| 0 <= j < b.len() && state_key(b[j].0) == state_key(state);
        b.update(j, (b[j].0, combined(b[j].1, s), if p is Some { p } else { b[j].2 }))
    } else {
        b.push((state, s, p))
    }
}

/// The run that a bucket becomes at the end of a build kind.
pub open spec fn run_matches(r: Run, b: BucketView, build_kind: BuildKind) -> bool {
    &&& r.stats.wf()
    &&& r.stats@ == b.1
    &&& profile_view(r.self_profile) == b.2
    &&& r.check == (build_kind == BuildKind::Check)
    &&& r.release == (build_kind == BuildKind::Opt)
    &&& r.state == b.0
}

struct Bucket {
    state: BenchmarkState,
    stats: Stats,
    profile: Option<SelfProfile>,
}

/// Accumulates measurements for one benchmark.
pub struct MeasureProcessor {
    buckets: Vec<Bucket>,
    is_first_collection: bool,
    self_profile: bool,
    tries: u8,
}

impl MeasureProcessor {
    pub closed spec fn buckets(&self) -> Seq<BucketView> {
        self.buckets@.map_values(|b: Bucket| (b.state, b.stats@, profile_view(b.profile)))
    }

    pub closed spec fn tries(&self) -> u8 {
        self.tries
    }

    pub closed spec fn first_collection(&self) -> bool {
        self.is_first_collection
    }

    pub closed spec fn collects_self_profile(&self) -> bool {
        self.self_profile
    }

    /// Every bucket holds statistics, and no two share a state.
    pub closed spec fn wf(&self) -> bool {
        &&& forall|j: int| 0 <= j < self.buckets@.len() ==> #[trigger] self.buckets@[j].stats.wf()
            && self.buckets@[j].stats@.dom().len() > 0
        &&& forall|i: int, j: int|
            0 <= i < self.buckets@.len() && 0 <= j < self.buckets@.len() && i != j ==> state_key(
                #[trigger] self.buckets@[i].state,
            ) != state_key(#[trigger] self.buckets@[j].state)
    }

    /// A processor with nothing accumulated; `self_profile` asks for a
    /// self-profile in the first collection of each build kind.
    pub fn new(self_profile: bool) -> (r: MeasureProcessor)
        ensures
            r.wf(),
            r.buckets() == Seq::<BucketView>::empty(),
            r.tries() == 0,
            r.first_collection(),
            r.collects_self_profile() == self_profile,
    {
        MeasureProcessor { buckets: Vec::new(), is_first_collection: true, self_profile, tries: 0 }
    }

    /// The tool for the next execution: with self-profiling in the first
    /// collection when asked for, plain counters otherwise.
    pub fn profiler(&self) -> (r: Profiler)
        ensures
            r == (if self.first_collection() && self.collects_self_profile() {
                Profiler::PerfStatSelfProfile
            } else {
                Profiler::PerfStat
            }),
    {
        if self.is_first_collection && self.self_profile {
            Profiler::PerfStatSelfProfile
        } else {
            Profiler::PerfStat
        }
    }

    pub fn start_first_collection(&mut self)
        ensures
            final(self).first_collection(),
            final(self).buckets() == old(self).buckets(),
            final(self).tries() == old(self).tries(),
            final(self).collects_self_profile() == old(self).collects_self_profile(),
            final(self).wf() == old(self).wf(),
    {
        self.is_first_collection = true;
    }

    /// Ends the first collection; true when the next one uses another tool,
    /// so that a second iteration is needed.
    pub fn finished_first_collection(&mut self) -> (r: bool)
        ensures
            !final(self).first_collection(),
            r == (old(self).first_collection() && old(self).collects_self_profile()),
            final(self).buckets() == old(self).buckets(),
            final(self).tries() == old(self).tries(),
            final(self).collects_self_profile() == old(self).collects_self_profile(),
            final(self).wf() == old(self).wf(),
    {
        let original = self.profiler();
        self.is_first_collection = false;
        let now = self.profiler();
        original != now
    }

    /// Adds statistics measured under `state` to their bucket.
    pub fn record(&mut self, state: BenchmarkState, stats: Stats, profile: Option<SelfProfile>)
        requires
            old(self).wf(),
            stats.wf(),
            stats@.dom().len() > 0,
        ensures
            final(self).wf(),
            final(self).buckets() == record_spec(old(self).buckets(), state, stats@, profile_view(profile)),
            final(self).tries() == old(self).tries(),
            final(self).first_collection() == old(self).first_collection(),
            final(self).collects_self_profile() == old(self).collects_self_profile(),
    {
        let ghost b0 = self.buckets();
        let mut j: usize = 0;
        while j < self.buckets.len()
            invariant
                self.wf(),
                j <= self.buckets@.len(),
                b0 == self.buckets@.map_values(|b: Bucket| (b.state, b.stats@, profile_view(b.profile))),
                forall|k: int| 0 <= k < j ==> state_key(#[trigger] self.buckets@[k].state) != state_key(state),
            ensures
                self.wf(),
                j <= self.buckets@.len(),
                b0 == self.buckets@.map_values(|b: Bucket| (b.state, b.stats@, profile_view(b.profile))),
                forall|k: int| 0 <= k < j ==> state_key(#[trigger] self.buckets@[k].state) != state_key(state),
                j < self.buckets@.len() ==> state_key(self.buckets@[j as int].state) == state_key(state),
            decreases self.buckets@.len() - j,
        {
            if self.buckets[j].state == state {
                break;
            }
            j += 1;
        }
        if j < self.buckets.len() {
            let ghost old_buckets = self.buckets@;
            assert(self.wf());
            assert(self.buckets@[j as int].stats.wf());
            let mut bucket = self.buckets.remove(j);
            let ghost old_stats = bucket.stats@;
            bucket.stats.combine_with(stats);
            if profile.is_some() {
                bucket.profile = profile;
            }
            self.buckets.insert(j, bucket);
            proof {
                assert(self.buckets@ == old_buckets.update(j as int, self.buckets@[j as int]));
                assert(state_key(b0[j as int].0) == state_key(state));
                let k = choose|k: int| 0 <= k < b0.len() && state_key(b0[k].0) == state_key(state);
                assert(k == j) by {
                    if k != j {
                        assert(state_key(old_buckets[k].state) != state_key(old_buckets[j as int].state));
                    }
                }
                assert(self.buckets() =~= record_spec(b0, state, stats@, profile_view(profile)));
                let nb = self.buckets@[j as int];
                assert(old_buckets[j as int].stats.wf() && old_buckets[j as int].stats@.dom().len() > 0);
                assert(old_stats == old_buckets[j as int].stats@);
                nb.stats.lemma_finite();
                assert(old_stats.dom().subset_of(nb.stats@.dom()));
                vstd::set_lib::lemma_len_subset(old_stats.dom(), nb.stats@.dom());
                assert forall|i: int| 0 <= i < self.buckets@.len() implies #[trigger] self.buckets@[i].stats.wf()
                    && self.buckets@[i].stats@.dom().len() > 0 by {
                    if i != j {
                        assert(self.buckets@[i] == old_buckets[i]);
                    }
                }
                assert forall|a: int, c: int|
                    0 <= a < self.buckets@.len() && 0 <= c < self.buckets@.len() && a != c implies state_key(
                        #[trigger] self.buckets@[a].state,
                    ) != state_key(#[trigger] self.buckets@[c].state) by {
                    assert(self.buckets@[a].state == old_buckets[a].state);
                    assert(self.buckets@[c].state == old_buckets[c].state);
                }
                assert(self.wf());
            }
        } else {
            let ghost old_buckets = self.buckets@;
            self.buckets.push(Bucket { state, stats, profile });
            proof {
                assert(!exists|k: int| 0 <= k < b0.len() && state_key(b0[k].0) == state_key(state)) by {
                    if exists|k: int| 0 <= k < b0.len() && state_key(b0[k].0) == state_key(state) {
                        let k = choose|k: int| 0 <= k < b0.len() && state_key(b0[k].0) == state_key(state);
                        assert(state_key(old_buckets[k].state) != state_key(state));
                    }
                }
                assert(self.buckets() =~= record_spec(b0, state, stats@, profile_view(profile)));
                assert forall|i: int| 0 <= i < self.buckets@.len() implies #[trigger] self.buckets@[i].stats.wf()
                    && self.buckets@[i].stats@.dom().len() > 0 by {
                    if i < old_buckets.len() {
                        assert(self.buckets@[i] == old_buckets[i]);
                    }
                }
                assert forall|a: int, c: int|
                    0 <= a < self.buckets@.len() && 0 <= c < self.buckets@.len() && a != c implies state_key(
                        #[trigger] self.buckets@[a].state,
                    ) != state_key(#[trigger] self.buckets@[c].state) by {
                    if a < old_buckets.len() {
                        assert(self.buckets@[a] == old_buckets[a]);
                    }
                    if c < old_buckets.len() {
                        assert(self.buckets@[c] == old_buckets[c]);
                    }
                }
                assert(self.wf());
            }
        }
    }

    /// Takes the output of one execution: adds its statistics to the bucket
    /// of its run kind, asks for a repetition when it holds none (at most
    /// `MAX_TRIES` times in all), and fails on an invalid output.
    pub fn process_output(&mut self, data: &ProcessOutputData, stdout: &str) -> (r: Result<Retry, DeserializeStatError>)
        requires
            old(self).wf(),
            data.run_kind == RunKind::IncrPatched ==> data.patch.is_some(),
        ensures
            final(self).wf(),
            final(self).first_collection() == old(self).first_collection(),
            final(self).collects_self_profile() == old(self).collects_self_profile(),
            ({
                let lines = lines_spec(stdout@);
                if first_bad_line(lines) is Some {
                    &&& r matches Err(e) && perf_output_matches(Err(e), stdout@)
                    &&& final(self).buckets() == old(self).buckets()
                    &&& final(self).tries() == old(self).tries()
                } else if stats_of(lines).dom().len() == 0 {
                    &&& final(self).buckets() == old(self).buckets()
                    &&& if old(self).tries() < MAX_TRIES {
                        r == Ok::<Retry, DeserializeStatError>(Retry::Yes) && final(self).tries()
                            == old(self).tries() + 1
                    } else {
                        r matches Err(DeserializeStatError::NoOutput(o)) && o@ == stdout@
                            && final(self).tries() == old(self).tries()
                    }
                } else {
                    &&& r == Ok::<Retry, DeserializeStatError>(Retry::No)
                    &&& final(self).buckets() == record_spec(
                        old(self).buckets(),
                        state_for(data.run_kind, data.patch),
                        stats_of(lines),
                        profile_of(lines),
                    )
                    &&& final(self).tries() == old(self).tries()
                }
            }),
    {
        match process_perf_stat_output(stdout) {
            Ok((stats, profile)) => {
                let state = match data.run_kind {
                    RunKind::Full => BenchmarkState::Clean,
                    RunKind::IncrFull => BenchmarkState::IncrementalStart,
                    RunKind::IncrUnchanged => BenchmarkState::IncrementalClean,
                    RunKind::IncrPatched => {
                        let patch = match &data.patch {
                            Some(p) => p.clone(),
                            None => {
                                return Ok(Retry::No);
                            },
                        };
                        BenchmarkState::IncrementalPatched(patch)
                    },
                };
                proof { stats.lemma_finite(); }
                self.record(state, stats, profile);
                Ok(Retry::No)
            },
            Err(DeserializeStatError::NoOutput(o)) => {
                if self.tries < MAX_TRIES {
                    self.tries = self.tries + 1;
                    Ok(Retry::Yes)
                } else {
                    Err(DeserializeStatError::NoOutput(o))
                }
            },
            Err(e) => Err(e),
        }
    }

    /// Turns each bucket into a run of `build_kind`, appended to `runs` in
    /// bucket order, and empties the buckets for the next build kind.
    pub fn finish_build_kind(&mut self, build_kind: BuildKind, runs: &mut Vec<Run>)
        requires
            old(self).wf(),
        ensures
            final(self).wf(),
            final(self).buckets() == Seq::<BucketView>::empty(),
            final(self).tries() == old(self).tries(),
            final(self).first_collection() == old(self).first_collection(),
            final(self).collects_self_profile() == old(self).collects_self_profile(),
            final(runs)@.len() == old(runs)@.len() + old(self).buckets().len(),
            forall|i: int| 0 <= i < old(runs)@.len() ==> #[trigger] final(runs)@[i] == old(runs)@[i],
            forall|i: int|
                0 <= i < old(self).buckets().len() ==> run_matches(
                    #[trigger] final(runs)@[old(runs)@.len() + i],
                    old(self).buckets()[i],
                    build_kind,
                ),
    {
        let ghost b0 = self.buckets();
        let ghost r0 = runs@;
        let mut buckets: Vec<Bucket> = Vec::new();
        std::mem::swap(&mut buckets, &mut self.buckets);
        let ghost all = buckets@;
        assert(all.len() == buckets.len());
        let mut k: usize = 0;
        while buckets.len() > 0
            invariant
                b0 == all.map_values(|b: Bucket| (b.state, b.stats@, profile_view(b.profile))),
                forall|j: int| 0 <= j < all.len() ==> #[trigger] all[j].stats.wf(),
                k <= all.len() <= usize::MAX,
                buckets@ == all.skip(k as int),
                runs@.len() == r0.len() + k,
                forall|i: int| 0 <= i < r0.len() ==> #[trigger] runs@[i] == r0[i],
                forall|i: int| 0 <= i < k ==> run_matches(#[trigger] runs@[r0.len() + i], b0[i], build_kind),
            decreases buckets@.len(),
        {
            let b = buckets.remove(0);
            assert(b == all[k as int]);
            assert(all.skip(k as int).drop_first() == all.skip(k + 1));
            runs.push(
                Run {
                    stats: b.stats,
                    self_profile: b.profile,
                    check: build_kind == BuildKind::Check,
                    release: build_kind == BuildKind::Opt,
                    state: b.state,
                },
            );
            k += 1;
        }
        assert(k == all.len());
    }
}

} // verus!
