use collector::cargo::{mk_cargo_process, split_whitespace, Compiler, Sysroot};
use collector::kinds::{BuildKind, RunKind};
use collector::measure::{ProcessOutputData, Retry};
use collector::patch::Patch;
use collector::profile::{ArtifactStep, ProfileProcessor};
use collector::profiler::Profiler;
use collector::runner::{default_runs, leaf_subcommand, Benchmark, BenchmarkConfig, LeafError, MeasureError, Step};
use collector::select::benchmark_selected;
use collector::shim::{crate_name, memory_line, self_profile_prefix, shim_args, shim_command, time_line, PrefixError};
use collector::site::TryCommit;
use collector::version::version_supports_incremental;

fn bench(disabled: bool, runs: usize, patches: Vec<Patch>) -> Benchmark {
    let mut config = BenchmarkConfig::default();
    config.disabled = disabled;
    config.runs = runs;
    Benchmark { name: "foo".to_string(), path: "/b/foo".to_string(), patches, config }
}

fn strings(v: &[&str]) -> Vec<String> {
    v.iter().map(|s| s.to_string()).collect()
}

#[test]
fn disabled_benchmark_is_not_run() {
    let b = bench(true, 3, vec![]);
    assert_eq!(b.plan(&[BuildKind::Debug], &[RunKind::Full], 3, false), Err(MeasureError::Disabled));
    let other = bench(false, 3, vec![]);
    assert!(other.plan(&[BuildKind::Debug], &[RunKind::Full], 3, false).is_ok());
}

#[test]
fn full_only_tool_refuses_patched_runs() {
    assert_eq!(
        leaf_subcommand(Profiler::LlvmLines, BuildKind::Debug, RunKind::IncrPatched),
        Err(LeafError::RunKindNotAllowed(RunKind::IncrPatched))
    );
    assert_eq!(leaf_subcommand(Profiler::LlvmLines, BuildKind::Debug, RunKind::Full), Ok("llvm-lines"));
    assert_eq!(
        leaf_subcommand(Profiler::LlvmLines, BuildKind::Check, RunKind::Full),
        Err(LeafError::BuildKindNotAllowed(BuildKind::Check))
    );
    assert_eq!(leaf_subcommand(Profiler::Cachegrind, BuildKind::Check, RunKind::IncrPatched), Ok("rustc"));
}

#[test]
fn plan_orders_the_leaves() {
    let b = bench(false, 3, vec![Patch::new("0-println.patch")]);
    let steps = b.plan(&[BuildKind::Check], &[RunKind::IncrPatched], 1, false).unwrap();
    let leaf = |run_kind, incremental, patch| Step::Leaf { build_kind: BuildKind::Check, run_kind, incremental, patch };
    assert_eq!(
        steps,
        vec![
            Step::Prepare(BuildKind::Check),
            Step::StartFirstCollection,
            Step::Iteration(0),
            leaf(RunKind::IncrFull, true, None),
            Step::ApplyPatch(0),
            leaf(RunKind::IncrPatched, true, Some(0)),
            Step::FinishedFirstCollection,
            Step::FinishBuildKind(BuildKind::Check),
        ]
    );
    let twice = b.plan(&[BuildKind::Check], &[RunKind::Full], 1, true).unwrap();
    assert_eq!(twice.iter().filter(|s| matches!(s, Step::Iteration(_))).count(), 2);
    let capped = bench(false, 2, vec![]).plan(&[BuildKind::Opt, BuildKind::Debug], &[RunKind::Full], 5, false).unwrap();
    assert_eq!(capped.iter().filter(|s| matches!(s, Step::Iteration(_))).count(), 4);
    assert_eq!(default_runs(), 3);
}

#[test]
fn cargo_arguments() {
    let mut config = BenchmarkConfig::default();
    config.cargo_opts = Some("  --features  a ".to_string());
    config.cargo_rustc_opts = Some("-Cx".to_string());
    let p = mk_cargo_process(&config, "/t", BuildKind::Check, Some("4"));
    assert_eq!(p.manifest_path, "Cargo.toml");
    assert_eq!(p.cargo_args, strings(&["--features", "a", "-j4"]));
    assert_eq!(p.incremental_var(), "0");
    let p = p.incremental(true);
    assert_eq!(p.incremental_var(), "1");
    assert_eq!(
        p.leaf_args("rustc", "foo 0.1", Some(Profiler::PerfStat)),
        strings(&[
            "rustc", "--manifest-path", "Cargo.toml", "-p", "foo 0.1", "--profile", "check", "--features", "a",
            "-j4", "--", "--wrap-rustc-with", "perf-stat", "-Cx"
        ])
    );
    assert_eq!(split_whitespace(" a\tb  c\n"), strings(&["a", "b", "c"]));
    let c = Compiler::from_sysroot(&Sysroot { rustc: "r".to_string(), cargo: "c".to_string(), triple: "t".to_string() });
    assert!(c.is_nightly);
}

#[test]
fn shim_strips_the_wrapper() {
    let (args, wrapper) = shim_args(strings(&["--crate-name", "foo", "--wrap-rustc-with", "perf-stat", "x.rs"]), Some("3"));
    assert_eq!(wrapper, Some("perf-stat".to_string()));
    assert_eq!(args, strings(&["--crate-name", "foo", "x.rs", "-Zthreads=3", "-Adeprecated"]));
    let (args, wrapper) = shim_args(strings(&["a"]), Some("x"));
    assert_eq!(wrapper, None);
    assert_eq!(args, strings(&["a", "-Adeprecated"]));
    assert_eq!(crate_name(&strings(&["--crate-name", "foo"])), Some("foo".to_string()));
    assert_eq!(crate_name(&strings(&["--crate-name"])), None);
    let cmd = shim_command("cachegrind").unwrap();
    assert_eq!(cmd.program, Some("valgrind".to_string()));
    assert!(cmd.probe && cmd.pass_compiler);
    assert_eq!(cmd.leading[0], "--tool=cachegrind");
    assert!(shim_command("self-profile").unwrap().program.is_none());
    assert!(shim_command("nope").is_none());
}

#[test]
fn shim_output_lines() {
    assert_eq!(time_line(3, 5), "3.000000005;;wall-time;4;100.00");
    assert_eq!(time_line(0, 123456789), "0.123456789;;wall-time;4;100.00");
    assert_eq!(memory_line(2048), "2048;;max-rss;3;100.00");
}

#[test]
fn self_profile_prefix_is_unique() {
    let files = strings(&["foo-123.events", "foo-123.string_data", "bar-1.events"]);
    assert_eq!(self_profile_prefix("foo", &files), Ok("foo-123".to_string()));
    let files = strings(&["foo-1.events", "foo-2.events"]);
    assert_eq!(
        self_profile_prefix("foo", &files),
        Err(PrefixError::Ambiguous("foo-1".to_string(), "foo-2".to_string()))
    );
    assert_eq!(self_profile_prefix("foo", &strings(&["x.y"])), Err(PrefixError::NotFound));
    assert_eq!(
        self_profile_prefix("foo", &strings(&["foo"])),
        Err(PrefixError::NoExtension("foo".to_string()))
    );
}

#[test]
fn profile_files_are_named_by_convention() {
    let p = ProfileProcessor::new(Profiler::Cachegrind, "/out".to_string(), "id1".to_string());
    let d = ProcessOutputData {
        name: "foo".to_string(),
        cwd: "/tmp".to_string(),
        build_kind: BuildKind::Opt,
        run_kind: RunKind::IncrPatched,
        run_kind_str: "IncrPatched0".to_string(),
        patch: None,
    };
    assert_eq!(p.out_file(&d, "cgout"), "cgout-id1-foo-Opt-IncrPatched0");
    let (steps, retry) = p.process_output(&d);
    assert_eq!(retry, Retry::No);
    assert_eq!(steps.len(), 2);
    match &steps[0] {
        ArtifactStep::Copy { from, to } => {
            assert_eq!(from, "cgout");
            assert_eq!(to, "cgout-id1-foo-Opt-IncrPatched0");
        }
        _ => panic!("expected a copy"),
    }
}

#[test]
fn benchmarks_are_selected() {
    assert!(benchmark_selected("serde", true, None, None));
    assert!(!benchmark_selected("serde", false, None, None));
    assert!(!benchmark_selected("scripts", true, None, None));
    assert!(!benchmark_selected("serde", true, Some("regex"), None));
    assert!(benchmark_selected("regex-0.1", true, Some("regex"), None));
    assert!(!benchmark_selected("regex-0.1", true, None, Some("foo,0.1")));
    assert!(benchmark_selected("regex-0.1", true, None, Some("foo,bar")));
}

#[test]
fn try_commit_comparison() {
    let t = TryCommit { sha: "b".to_string(), parent_sha: "a".to_string() };
    assert_eq!(t.sha(), "b");
    assert_eq!(t.comparison_url(), "https://perf.rust-lang.org/compare.html?start=a&end=b");
}

#[test]
fn incremental_support_by_version() {
    assert_eq!(version_supports_incremental("1.23.0"), Some(false));
    assert_eq!(version_supports_incremental("1.24.0"), Some(true));
    assert_eq!(version_supports_incremental("1.24.0-beta.1"), Some(false));
    assert_eq!(version_supports_incremental("1.24.1"), Some(true));
    assert_eq!(version_supports_incremental("2.0.0"), Some(true));
    assert_eq!(version_supports_incremental("beta"), Some(true));
    assert_eq!(version_supports_incremental("master-2020-01-01"), Some(true));
    assert_eq!(version_supports_incremental("stable"), None);
}
