//! The execution matrix of one benchmark: which builds and compilations run,
//! in which order, and which tool may measure which leaf.
use vstd::prelude::*;
use crate::kinds::{BuildKind, RunKind};
use crate::patch::Patch;
use crate::profiler::Profiler;

verus! {

/// One step of a benchmark's measurement, carried out in order.
#[derive(Clone, Copy, Debug, PartialEq, Eq, Structural)]
pub enum Step {
    /// Copy the sources to a fresh directory and build everything once, so
    /// that dependencies are not rebuilt by the measured compilations.
    Prepare(BuildKind),
    /// Tell the processor that the first collection starts.
    StartFirstCollection,
    /// Tell the processor that the first collection ended.
    FinishedFirstCollection,
    /// Copy the prepared directory to a fresh one for iteration `n`.
    Iteration(usize),
    /// Apply the patch at this index to the iteration's directory.
    ApplyPatch(usize),
    /// Compile and measure once; repeated while the processor asks for it.
    Leaf { build_kind: BuildKind, run_kind: RunKind, incremental: bool, patch: Option<usize> },
    /// Let the processor turn its accumulated measurements into runs.
    FinishBuildKind(BuildKind),
}

/// Why a benchmark was not measured.
#[derive(Clone, Copy, Debug, PartialEq, Eq, Structural)]
pub enum MeasureError {
    Disabled,
}

/// Why a tool cannot measure a leaf.
#[derive(Clone, Copy, Debug, PartialEq, Eq, Structural)]
pub enum LeafError {
    BuildKindNotAllowed(BuildKind),
    RunKindNotAllowed(RunKind),
}

/// The settings of one benchmark, read from its configuration file.
#[derive(Debug)]
pub struct BenchmarkConfig {
    pub cargo_opts: Option<String>,
    pub cargo_rustc_opts: Option<String>,
    pub cargo_toml: Option<String>,
    pub disabled: bool,
    pub runs: usize,
    pub supports_stable: bool,
}

/// The number of iterations when the configuration names none.
pub fn default_runs() -> (r: usize)
    ensures
        r == 3,
{
    3
}

impl Default for BenchmarkConfig {
    fn default() -> (r: BenchmarkConfig)
        ensures
            r.cargo_opts.is_none(),
            r.cargo_rustc_opts.is_none(),
            r.cargo_toml.is_none(),
            !r.disabled,
            r.runs == 3,
            !r.supports_stable,
    {
        BenchmarkConfig {
            cargo_opts: None,
            cargo_rustc_opts: None,
            cargo_toml: None,
            disabled: false,
            runs: default_runs(),
            supports_stable: false,
        }
    }
}

/// A benchmark: its name, directory, patches in file order, and settings.
pub struct Benchmark {
    pub name: String,
    pub path: String,
    pub patches: Vec<Patch>,
    pub config: BenchmarkConfig,
}

/// The patched leaves of one iteration: each patch applied, then compiled.
pub open spec fn patch_steps(build_kind: BuildKind, n: nat) -> Seq<Step>
    decreases n,
{
    if n == 0 {
        Seq::empty()
    } else {
        patch_steps(build_kind, (n - 1) as nat) + seq![
            Step::ApplyPatch((n - 1) as usize),
            Step::Leaf {
                build_kind,
                run_kind: RunKind::IncrPatched,
                incremental: true,
                patch: Some((n - 1) as usize),
            },
        ]
    }
}

pub open spec fn opt_step(b: bool, s: Step) -> Seq<Step> {
    if b {
        seq![s]
    } else {
        Seq::empty()
    }
}

/// The leaves of one iteration: a full build, an incremental build from
/// scratch whenever any incremental kind is requested (the later ones need
/// its cache), an unchanged rebuild, then each patch in order.
pub open spec fn leaf_steps(build_kind: BuildKind, run_kinds: Seq<RunKind>, n_patches: nat) -> Seq<Step> {
    let full = run_kinds.contains(RunKind::Full);
    let incr_full = run_kinds.contains(RunKind::IncrFull);
    let unchanged = run_kinds.contains(RunKind::IncrUnchanged);
    let patched = run_kinds.contains(RunKind::IncrPatched);
    opt_step(
        full,
        Step::Leaf { build_kind, run_kind: RunKind::Full, incremental: false, patch: None },
    ) + opt_step(
        incr_full || unchanged || patched,
        Step::Leaf { build_kind, run_kind: RunKind::IncrFull, incremental: true, patch: None },
    ) + opt_step(
        unchanged,
        Step::Leaf { build_kind, run_kind: RunKind::IncrUnchanged, incremental: true, patch: None },
    ) + if patched {
        patch_steps(build_kind, n_patches)
    } else {
        Seq::empty()
    }
}

/// Iterations `1 .. count`, each in a fresh directory.
pub open spec fn later_iterations(count: nat, leaves: Seq<Step>) -> Seq<Step>
    decreases count,
{
    if count <= 1 {
        Seq::empty()
    } else {
        later_iterations((count - 1) as nat, leaves) + seq![Step::Iteration((count - 1) as usize)]
            + leaves
    }
}

pub open spec fn min_usize(a: usize, b: usize) -> usize {
    if a < b {
        a
    } else {
        b
    }
}

/// The steps of one build kind: prepare, the first iteration, and the later
/// ones. At least two iterations run, as the first may be instrumented more
/// heavily; a single requested iteration stops after the first unless the
/// processor asked for a differently instrumented second pass.
pub open spec fn build_kind_steps(
    build_kind: BuildKind,
    run_kinds: Seq<RunKind>,
    n_patches: nat,
    iterations: usize,
    second_pass: bool,
) -> Seq<Step> {
    let leaves = leaf_steps(build_kind, run_kinds, n_patches);
    let count: nat = if iterations < 2 { 2 } else { iterations as nat };
    seq![Step::Prepare(build_kind), Step::StartFirstCollection, Step::Iteration(0)] + leaves
        + seq![Step::FinishedFirstCollection] + (if iterations == 1 && !second_pass {
        Seq::empty()
    } else {
        later_iterations(count, leaves)
    }) + seq![Step::FinishBuildKind(build_kind)]
}

/// The steps for each build kind in turn.
pub open spec fn plan_spec(
    build_kinds: Seq<BuildKind>,
    run_kinds: Seq<RunKind>,
    n_patches: nat,
    iterations: usize,
    second_pass: bool,
) -> Seq<Step>
    decreases build_kinds.len(),
{
    if build_kinds.len() == 0 {
        Seq::empty()
    } else {
        plan_spec(build_kinds.drop_last(), run_kinds, n_patches, iterations, second_pass)
            + build_kind_steps(build_kinds.last(), run_kinds, n_patches, iterations, second_pass)
    }
}

fn contains_run_kind(run_kinds: &[RunKind], k: RunKind) -> (r: bool)
    ensures
        r == run_kinds@.contains(k),
{
    let mut i: usize = 0;
    while i < run_kinds.len()
        invariant
            i <= run_kinds@.len(),
            forall|j: int| 0 <= j < i ==> run_kinds@[j] != k,
        decreases run_kinds@.len() - i,
    {
        if run_kinds[i] == k {
            assert(run_kinds@[i as int] == k);
            return true;
        }
        i += 1;
    }
    false
}

fn append_steps(out: &mut Vec<Step>, steps: &Vec<Step>)
    ensures
        final(out)@ == old(out)@ + steps@,
{
    let mut i: usize = 0;
    let ghost start = out@;
    while i < steps.len()
        invariant
            i <= steps@.len(),
            out@ == start + steps@.take(i as int),
        decreases steps@.len() - i,
    {
        out.push(steps[i]);
        assert(steps@.take(i + 1) == steps@.take(i as int).push(steps@[i as int]));
        i += 1;
    }
    assert(steps@.take(steps@.len() as int) == steps@);
}

fn leaves_of(build_kind: BuildKind, run_kinds: &[RunKind], n_patches: usize) -> (r: Vec<Step>)
    ensures
        r@ == leaf_steps(build_kind, run_kinds@, n_patches as nat),
{
    let full = contains_run_kind(run_kinds, RunKind::Full);
    let incr_full = contains_run_kind(run_kinds, RunKind::IncrFull);
    let unchanged = contains_run_kind(run_kinds, RunKind::IncrUnchanged);
    let patched = contains_run_kind(run_kinds, RunKind::IncrPatched);
    let mut r: Vec<Step> = Vec::new();
    if full {
        r.push(Step::Leaf { build_kind, run_kind: RunKind::Full, incremental: false, patch: None });
    }
    if incr_full || unchanged || patched {
        r.push(Step::Leaf { build_kind, run_kind: RunKind::IncrFull, incremental: true, patch: None });
    }
    if unchanged {
        r.push(
            Step::Leaf { build_kind, run_kind: RunKind::IncrUnchanged, incremental: true, patch: None },
        );
    }
    let ghost head = r@;
    assert(head == opt_step(
        full,
        Step::Leaf { build_kind, run_kind: RunKind::Full, incremental: false, patch: None },
    ) + opt_step(
        incr_full || unchanged || patched,
        Step::Leaf { build_kind, run_kind: RunKind::IncrFull, incremental: true, patch: None },
    ) + opt_step(
        unchanged,
        Step::Leaf { build_kind, run_kind: RunKind::IncrUnchanged, incremental: true, patch: None },
    ));
    if patched {
        let mut j: usize = 0;
        while j < n_patches
            invariant
                j <= n_patches,
                r@ == head + patch_steps(build_kind, j as nat),
            decreases n_patches - j,
        {
            r.push(Step::ApplyPatch(j));
            r.push(
                Step::Leaf {
                    build_kind,
                    run_kind: RunKind::IncrPatched,
                    incremental: true,
                    patch: Some(j),
                },
            );
            assert(patch_steps(build_kind, (j + 1) as nat) == patch_steps(build_kind, j as nat) + seq![
                Step::ApplyPatch(j),
                Step::Leaf {
                    build_kind,
                    run_kind: RunKind::IncrPatched,
                    incremental: true,
                    patch: Some(j),
                },
            ]);
            j += 1;
        }
    } else {
        assert(r@ == head + Seq::<Step>::empty());
    }
    r
}

fn push_build_kind_steps(
    out: &mut Vec<Step>,
    bk: BuildKind,
    run_kinds: &[RunKind],
    n_patches: usize,
    iterations: usize,
    second_pass: bool,
)
    ensures
        final(out)@ == old(out)@ + build_kind_steps(bk, run_kinds@, n_patches as nat, iterations, second_pass),
{
    let count: usize = if iterations < 2 { 2 } else { iterations };
    let leaves = leaves_of(bk, run_kinds, n_patches);
    let ghost before = out@;
    out.push(Step::Prepare(bk));
    out.push(Step::StartFirstCollection);
    out.push(Step::Iteration(0));
    append_steps(out, &leaves);
    out.push(Step::FinishedFirstCollection);
    let ghost mid = out@;
    if !(iterations == 1 && !second_pass) {
        let mut i: usize = 1;
        while i < count
            invariant
                1 <= i <= count,
                leaves@ == leaf_steps(bk, run_kinds@, n_patches as nat),
                out@ == mid + later_iterations(i as nat, leaves@),
            decreases count - i,
        {
            out.push(Step::Iteration(i));
            append_steps(out, &leaves);
            assert(later_iterations((i + 1) as nat, leaves@) == later_iterations(i as nat, leaves@)
                + seq![Step::Iteration(i)] + leaves@);
            i += 1;
        }
    } else {
        assert(out@ == mid + Seq::<Step>::empty());
    }
    out.push(Step::FinishBuildKind(bk));
    assert(out@ == before + build_kind_steps(bk, run_kinds@, n_patches as nat, iterations, second_pass));
}

impl Benchmark {
    /// The steps that measure this benchmark for each build kind and the
    /// requested run kinds, with at most `iterations` iterations (and at most
    /// as many as the benchmark's settings allow). `second_pass` is the
    /// processor's answer at the end of the first collection. A disabled
    /// benchmark is not measured at all.
    pub fn plan(
        &self,
        build_kinds: &[BuildKind],
        run_kinds: &[RunKind],
        iterations: usize,
        second_pass: bool,
    ) -> (r: Result<Vec<Step>, MeasureError>)
        ensures
            self.config.disabled ==> r == Err::<Vec<Step>, MeasureError>(MeasureError::Disabled),
            !self.config.disabled ==> (r matches Ok(v) && v@ == plan_spec(
                build_kinds@,
                run_kinds@,
                self.patches@.len(),
                min_usize(iterations, self.config.runs),
                second_pass,
            )),
    {
        if self.config.disabled {
            return Err(MeasureError::Disabled);
        }
        let iterations = if iterations < self.config.runs { iterations } else { self.config.runs };
        let n_patches = self.patches.len();
        let mut out: Vec<Step> = Vec::new();
        let mut b: usize = 0;
        while b < build_kinds.len()
            invariant
                b <= build_kinds@.len(),
                n_patches == self.patches@.len(),
                out@ == plan_spec(build_kinds@.take(b as int), run_kinds@, n_patches as nat, iterations, second_pass),
            decreases build_kinds@.len() - b,
        {
            let bk = build_kinds[b];
            let ghost before = out@;
            push_build_kind_steps(&mut out, bk, run_kinds, n_patches, iterations, second_pass);
            assert(build_kinds@.take(b + 1).drop_last() == build_kinds@.take(b as int));
            assert(out@ == before + build_kind_steps(bk, run_kinds@, n_patches as nat, iterations, second_pass));
            b += 1;
        }
        assert(build_kinds@.take(build_kinds@.len() as int) == build_kinds@);
        Ok(out)
    }

    pub fn supports_stable(&self) -> (r: bool)
        ensures
            r == self.config.supports_stable,
    {
        self.config.supports_stable
    }
}

/// The cargo subcommand for a leaf measured by `profiler`, or why the tool
/// cannot measure it. Checked before any process is started.
pub fn leaf_subcommand(profiler: Profiler, build_kind: BuildKind, run_kind: RunKind) -> (r: Result<&'static str, LeafError>)
    ensures
        !profiler.is_build_kind_allowed_spec(build_kind) ==> r == Err::<&'static str, LeafError>(
            LeafError::BuildKindNotAllowed(build_kind),
        ),
        profiler.is_build_kind_allowed_spec(build_kind) && !profiler.is_run_kind_allowed_spec(run_kind)
            ==> r == Err::<&'static str, LeafError>(LeafError::RunKindNotAllowed(run_kind)),
        profiler.is_build_kind_allowed_spec(build_kind) && profiler.is_run_kind_allowed_spec(run_kind)
            ==> (r matches Ok(s) && s@ == (if profiler == Profiler::LlvmLines { "llvm-lines"@ } else { "rustc"@ })),
{
    if !profiler.is_build_kind_allowed(build_kind) {
        return Err(LeafError::BuildKindNotAllowed(build_kind));
    }
    if !profiler.is_run_kind_allowed(run_kind) {
        return Err(LeafError::RunKindNotAllowed(run_kind));
    }
    Ok(profiler.subcommand())
}

} // verus!
