use collector::kinds::{build_kinds_from_arg, run_kinds_from_arg, BuildKind, KindError, RunKind};
use collector::perf_stat::{parse_decimal, process_perf_stat_output, DeserializeStatError};
use collector::profiler::{Bencher, FromNameError, Profiler};

fn chars(s: &str) -> Vec<char> {
    s.chars().collect()
}

#[test]
fn full_activity_output_parses() {
    let out = "1000;;instructions:u;100;100.00\n2.5;msec;task-clock;4;100.00\n";
    let (stats, profile) = process_perf_stat_output(out).unwrap();
    assert_eq!(stats.len(), 2);
    assert_eq!(stats.get(&"instructions:u".to_string()), Some(1000 * 1_000_000_000));
    assert_eq!(stats.get(&"task-clock".to_string()), Some(2_500_000_000));
    assert!(profile.is_none());
}

#[test]
fn full_activity_with_100_0_parses() {
    let out = "7;;cycles:u;1;100.0\n<not supported>;;faults;1;0.0\n;;cpu-clock;1;100.0";
    let (stats, _) = process_perf_stat_output(out).unwrap();
    assert_eq!(stats.len(), 1);
    assert_eq!(stats.get(&"cycles:u".to_string()), Some(7_000_000_000));
}

#[test]
fn partial_activity_is_fatal() {
    let out = "1000;;instructions:u;100;100.00\n5;;cycles:u;50;50.00\n";
    let r = process_perf_stat_output(out);
    assert_eq!(
        r.err(),
        Some(DeserializeStatError::PartlyActive("cycles:u".to_string(), "50.00".to_string()))
    );
}

#[test]
fn no_statistic_lines_is_retryable() {
    let out = "some noise\n\n";
    match process_perf_stat_output(out) {
        Err(DeserializeStatError::NoOutput(o)) => assert_eq!(o, out),
        _ => panic!("expected NoOutput"),
    }
    assert!(matches!(process_perf_stat_output(""), Err(DeserializeStatError::NoOutput(_))));
}

#[test]
fn bad_count_is_fatal() {
    let out = "12x;;instructions:u;100;100.00\n";
    assert_eq!(
        process_perf_stat_output(out).err(),
        Some(DeserializeStatError::ParseError("12x".to_string()))
    );
}

#[test]
fn self_profile_line_is_kept() {
    let out = "!self-profile-output:{\"a\":1}\n3;;wall-time;4;100.00\n";
    let (stats, profile) = process_perf_stat_output(out).unwrap();
    assert_eq!(stats.len(), 1);
    assert_eq!(profile.unwrap().json, "{\"a\":1}");
}

#[test]
fn repeated_name_keeps_last_value() {
    let out = "1;;x;1;100.00\r\n2;;x;1;100.00\r\n";
    let (stats, _) = process_perf_stat_output(out).unwrap();
    assert_eq!(stats.get(&"x".to_string()), Some(2_000_000_000));
}

#[test]
fn decimals_in_fixed_point() {
    assert_eq!(parse_decimal(&chars("1.234567890123")), Some(1_234_567_890));
    assert_eq!(parse_decimal(&chars("0.5")), Some(500_000_000));
    assert_eq!(parse_decimal(&chars(".5")), Some(500_000_000));
    assert_eq!(parse_decimal(&chars("5.")), Some(5_000_000_000));
    assert_eq!(parse_decimal(&chars("42")), Some(42_000_000_000));
    assert_eq!(parse_decimal(&chars("")), None);
    assert_eq!(parse_decimal(&chars(".")), None);
    assert_eq!(parse_decimal(&chars("1.2.3")), None);
    assert_eq!(parse_decimal(&chars("-1")), None);
    assert_eq!(parse_decimal(&chars("999999999999999999999999999999999")), None);
}

#[test]
fn build_kinds_are_selected_in_order() {
    assert_eq!(
        build_kinds_from_arg(&Some("Opt,Check")).unwrap(),
        vec![BuildKind::Check, BuildKind::Opt]
    );
    assert_eq!(
        build_kinds_from_arg(&None).unwrap(),
        vec![BuildKind::Check, BuildKind::Debug, BuildKind::Opt]
    );
    assert_eq!(
        build_kinds_from_arg(&Some("All,Debug")).unwrap(),
        vec![BuildKind::Check, BuildKind::Debug, BuildKind::Opt]
    );
    assert_eq!(
        build_kinds_from_arg(&Some("Debug,Fast")),
        Err(KindError::UnknownKind("build", "Fast".to_string()))
    );
}

#[test]
fn run_kinds_are_selected_in_order() {
    assert_eq!(
        run_kinds_from_arg(&Some("IncrPatched,Full,Full")).unwrap(),
        vec![RunKind::Full, RunKind::IncrPatched]
    );
    assert_eq!(run_kinds_from_arg(&None).unwrap(), RunKind::all());
    assert!(run_kinds_from_arg(&Some("")).is_err());
}

#[test]
fn profilers_by_name() {
    assert_eq!(Profiler::from_name("perf-stat"), Err(FromNameError::PerfStat));
    assert_eq!(Profiler::from_name("llvm-lines"), Ok(Profiler::LlvmLines));
    assert_eq!(Profiler::from_name("dhat"), Ok(Profiler::DHAT));
    assert_eq!(
        Profiler::from_name("gprof"),
        Err(FromNameError::UnknownProfiler("gprof".to_string()))
    );
    assert_eq!(Profiler::LlvmLines.name(), "llvm-lines");
    assert_eq!(Profiler::LlvmLines.subcommand(), "llvm-lines");
    assert_eq!(Profiler::Massif.subcommand(), "rustc");
    assert!(!Profiler::LlvmLines.is_build_kind_allowed(BuildKind::Check));
    assert!(Profiler::LlvmLines.is_build_kind_allowed(BuildKind::Opt));
    assert!(Profiler::Cachegrind.is_run_kind_allowed(RunKind::IncrPatched));
}

#[test]
fn bench_tool_per_platform() {
    assert_eq!(Bencher::for_collection(true, true, true), Bencher::PerfStatSelfProfile);
    assert_eq!(Bencher::for_collection(true, true, false), Bencher::XperfStatSelfProfile);
    assert_eq!(Bencher::for_collection(false, true, false), Bencher::XperfStat);
    assert_eq!(Bencher::for_collection(true, false, true), Bencher::PerfStat);
}
