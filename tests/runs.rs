use collector::kinds::{BuildKind, RunKind};
use collector::measure::{MeasureProcessor, ProcessOutputData, Retry};
use collector::patch::{is_patch_file, Patch};
use collector::perf_stat::DeserializeStatError;
use collector::profiler::Profiler;
use collector::run::{BenchmarkState, Run, RunId};
use collector::stats::Stats;

fn data(run_kind: RunKind, patch: Option<Patch>) -> ProcessOutputData {
    ProcessOutputData {
        name: "foo".to_string(),
        cwd: "/tmp/x".to_string(),
        build_kind: BuildKind::Debug,
        run_kind,
        run_kind_str: "Full".to_string(),
        patch,
    }
}

fn patched_run(file: &str) -> Run {
    Run {
        stats: Stats::new(),
        self_profile: None,
        check: false,
        release: true,
        state: BenchmarkState::IncrementalPatched(Patch::new(file)),
    }
}

#[test]
fn patch_identity_ignores_file_index() {
    let a = Patch::new("0-println.patch");
    let b = Patch::new("8-println.patch");
    assert_eq!(a.name, "println");
    assert_eq!(b.name, "println");
    assert_eq!(a.index, 0);
    assert_eq!(b.index, 8);
    assert!(a == b);
    let ida: RunId = patched_run("0-println.patch").id();
    let idb: RunId = patched_run("8-println.patch").id();
    assert!(ida == idb);
    assert_eq!(ida.name(), "patched incremental: println-opt");
}

#[test]
fn patch_names_from_files() {
    let p = Patch::new("12-add-dummy-fn.patch");
    assert_eq!(p.index, 12);
    assert_eq!(p.name, "add dummy fn");
    assert_eq!(p.path, "12-add-dummy-fn.patch");
    assert!(is_patch_file("3-x.patch"));
    assert!(!is_patch_file("x-3.patch"));
    assert!(!is_patch_file("3.patch"));
    assert!(!is_patch_file("-x.patch"));
}

#[test]
fn state_names() {
    assert_eq!(BenchmarkState::Clean.name(), "clean");
    assert_eq!(BenchmarkState::IncrementalStart.name(), "baseline incremental");
    let erased = BenchmarkState::IncrementalPatched(Patch::new("5-println.patch")).erase_path();
    match &erased {
        BenchmarkState::IncrementalPatched(p) => {
            assert_eq!(p.index, 0);
            assert_eq!(p.path, "");
            assert_eq!(p.name, "println");
        }
        _ => panic!("erasing changed the state"),
    }
    assert!(erased.is_patch());
    assert!(!erased.is_base_compile());
    let r = patched_run("1-println.patch");
    assert!(r.is_println_incr());
    assert_eq!(r.name(), "patched incremental: println-opt");
}

#[test]
fn measurements_accumulate_per_run_kind() {
    let mut p = MeasureProcessor::new(false);
    assert_eq!(p.profiler(), Profiler::PerfStat);
    let full = data(RunKind::Full, None);
    assert_eq!(p.process_output(&full, "10;;wall-time;4;100.00\n"), Ok(Retry::No));
    assert_eq!(p.process_output(&full, "30;;wall-time;4;100.00\n"), Ok(Retry::No));
    let patched = data(RunKind::IncrPatched, Some(Patch::new("0-println.patch")));
    assert_eq!(p.process_output(&patched, "1;;wall-time;4;100.00\n"), Ok(Retry::No));
    let mut runs = Vec::new();
    p.finish_build_kind(BuildKind::Opt, &mut runs);
    assert_eq!(runs.len(), 2);
    assert!(runs[0].is_clean());
    assert!(runs[0].release && !runs[0].check);
    assert_eq!(runs[0].get_stat(&"wall-time".to_string()), Some(40_000_000_000));
    assert!(runs[1].is_println_incr());
    let mut more = Vec::new();
    p.finish_build_kind(BuildKind::Opt, &mut more);
    assert!(more.is_empty());
}

#[test]
fn empty_output_is_retried_five_times() {
    let mut p = MeasureProcessor::new(false);
    let full = data(RunKind::Full, None);
    for _ in 0..5 {
        assert_eq!(p.process_output(&full, "nothing"), Ok(Retry::Yes));
    }
    assert_eq!(
        p.process_output(&full, "nothing"),
        Err(DeserializeStatError::NoOutput("nothing".to_string()))
    );
}

#[test]
fn self_profile_only_in_first_collection() {
    let mut p = MeasureProcessor::new(true);
    assert_eq!(p.profiler(), Profiler::PerfStatSelfProfile);
    assert!(p.finished_first_collection());
    assert_eq!(p.profiler(), Profiler::PerfStat);
    p.start_first_collection();
    assert_eq!(p.profiler(), Profiler::PerfStatSelfProfile);
    let mut q = MeasureProcessor::new(false);
    assert!(!q.finished_first_collection());
}

#[test]
fn stats_combine_by_name() {
    let mut a = Stats::new();
    a.insert("x".to_string(), 1);
    a.insert("y".to_string(), 2);
    let mut b = Stats::new();
    b.insert("y".to_string(), 5);
    b.insert("z".to_string(), u128::MAX);
    b.insert("x".to_string(), u128::MAX);
    a.combine_with(b);
    assert_eq!(a.get(&"x".to_string()), Some(u128::MAX));
    assert_eq!(a.get(&"y".to_string()), Some(7));
    assert_eq!(a.get(&"z".to_string()), Some(u128::MAX));
    assert_eq!(a.len(), 3);
    a.clear();
    assert!(a.is_empty());
}
