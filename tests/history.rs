use collector::data::{Benchmark, Commit, CommitData, Date};
use collector::fill::{benchmark_names, interpolate};
use collector::interpolate::{interpolate_stats, interpolate_value};
use collector::run::{BenchmarkState, Run};
use collector::stats::Stats;

fn commit(sha: &str, day: u32) -> Commit {
    Commit { sha: sha.to_string(), date: Date::ymd_hms(2020, 3, day, 0, 0, 0) }
}

fn run(state: BenchmarkState, wall: u128) -> Run {
    let mut stats = Stats::new();
    stats.insert("wall-time".to_string(), wall);
    Run { stats, self_profile: None, check: false, release: false, state }
}

fn with(c: Commit, entries: Vec<(&str, Result<Vec<Run>, &str>)>) -> CommitData {
    CommitData {
        commit: c,
        benchmarks: entries
            .into_iter()
            .map(|(n, r)| {
                (
                    n.to_string(),
                    r.map(|runs| Benchmark { runs, name: n.to_string() }).map_err(|e| e.to_string()),
                )
            })
            .collect(),
        triple: "x86_64-unknown-linux-gnu".to_string(),
    }
}

fn wall(cd: &CommitData, name: &str, idx: usize) -> Option<u128> {
    let (_, r) = cd.benchmarks.iter().find(|(n, _)| n == name)?;
    r.as_ref().ok()?.runs.get(idx)?.get_stat(&"wall-time".to_string())
}

const UNIT: u128 = 1_000_000_000;

#[test]
fn gap_between_two_commits_is_interpolated() {
    let data = vec![
        with(commit("a", 1), vec![("foo", Ok(vec![run(BenchmarkState::Clean, 10 * UNIT)]))]),
        with(commit("b", 2), vec![]),
        with(commit("c", 3), vec![("foo", Ok(vec![run(BenchmarkState::Clean, 30 * UNIT)]))]),
    ];
    let (out, records) = interpolate(&data);
    assert_eq!(out.len(), 3);
    assert_eq!(wall(&out[1], "foo", 0), Some(20 * UNIT));
    assert_eq!(wall(&out[0], "foo", 0), Some(10 * UNIT));
    assert_eq!(wall(&out[2], "foo", 0), Some(30 * UNIT));
    assert_eq!(records.len(), 1);
    assert_eq!(records[0].sha, "b");
    assert_eq!(records[0].benchmark, "foo");
    assert!(records[0].run.is_none());
}

#[test]
fn dense_history_is_unchanged() {
    let data = vec![
        with(commit("a", 1), vec![("foo", Ok(vec![run(BenchmarkState::Clean, 5 * UNIT)]))]),
        with(commit("b", 2), vec![("foo", Ok(vec![run(BenchmarkState::Clean, 7 * UNIT)]))]),
    ];
    let (out, records) = interpolate(&data);
    assert!(records.is_empty());
    assert_eq!(wall(&out[0], "foo", 0), Some(5 * UNIT));
    assert_eq!(wall(&out[1], "foo", 0), Some(7 * UNIT));
    assert_eq!(out[1].benchmarks.len(), 1);
}

#[test]
fn gap_at_the_ends_copies_the_neighbour() {
    let data = vec![
        with(commit("a", 1), vec![("foo", Err("build failed"))]),
        with(commit("b", 2), vec![("foo", Ok(vec![run(BenchmarkState::Clean, 8 * UNIT)]))]),
        with(commit("c", 3), vec![]),
    ];
    let (out, records) = interpolate(&data);
    assert_eq!(wall(&out[0], "foo", 0), Some(8 * UNIT));
    assert_eq!(wall(&out[2], "foo", 0), Some(8 * UNIT));
    assert_eq!(records.len(), 2);
}

#[test]
fn try_commits_are_not_filled_nor_used() {
    let data = vec![
        with(commit("a", 1), vec![("foo", Ok(vec![run(BenchmarkState::Clean, 10 * UNIT)]))]),
        with(
            Commit { sha: "t".to_string(), date: Date::ymd_hms(2000, 1, 1, 12, 0, 0) },
            vec![("foo", Ok(vec![run(BenchmarkState::Clean, 99 * UNIT)]))],
        ),
        with(commit("b", 3), vec![]),
        with(Commit { sha: "u".to_string(), date: Date::ymd_hms(2000, 1, 1, 0, 0, 0) }, vec![]),
    ];
    let (out, records) = interpolate(&data);
    assert_eq!(wall(&out[2], "foo", 0), Some(10 * UNIT));
    assert_eq!(wall(&out[3], "foo", 0), None);
    assert_eq!(records.len(), 1);
    assert!(data[1].commit.is_try());
}

#[test]
fn missing_run_is_filled_from_neighbours() {
    let data = vec![
        with(
            commit("a", 1),
            vec![("foo", Ok(vec![run(BenchmarkState::Clean, 10 * UNIT), run(BenchmarkState::IncrementalStart, 2 * UNIT)]))],
        ),
        with(commit("b", 2), vec![("foo", Ok(vec![run(BenchmarkState::Clean, 11 * UNIT)]))]),
        with(
            commit("c", 3),
            vec![("foo", Ok(vec![run(BenchmarkState::Clean, 12 * UNIT), run(BenchmarkState::IncrementalStart, 4 * UNIT)]))],
        ),
    ];
    let (out, records) = interpolate(&data);
    assert_eq!(wall(&out[1], "foo", 0), Some(11 * UNIT));
    assert_eq!(wall(&out[1], "foo", 1), Some(3 * UNIT));
    assert_eq!(records.len(), 1);
    assert_eq!(records[0].sha, "b");
    assert!(records[0].run.is_some());
}

#[test]
fn no_measurement_at_all_leaves_a_gap() {
    let data = vec![
        with(commit("a", 1), vec![("foo", Err("failed"))]),
        with(commit("b", 2), vec![("foo", Err("failed"))]),
    ];
    let (out, records) = interpolate(&data);
    assert!(records.is_empty());
    assert!(out[0].benchmarks[0].1.is_err());
    assert_eq!(benchmark_names(&data), vec!["foo".to_string()]);
}

#[test]
fn interpolated_values_stay_between_neighbours() {
    assert_eq!(interpolate_value(10, 30, 1, 2), 20);
    assert_eq!(interpolate_value(30, 10, 1, 2), 20);
    assert_eq!(interpolate_value(0, 10, 1, 3), 3);
    assert_eq!(interpolate_value(10, 0, 1, 3), 7);
    assert_eq!(interpolate_value(5, 9, 0, 4), 5);
    assert_eq!(interpolate_value(5, 9, 4, 4), 9);
    assert_eq!(interpolate_value(u128::MAX, 0, 1, 2), u128::MAX - u128::MAX / 2);
    for k in 0..=7usize {
        let v = interpolate_value(100, 3, k, 7);
        assert!(3 <= v && v <= 100);
    }
}

#[test]
fn only_shared_statistics_are_interpolated() {
    let mut a = Stats::new();
    a.insert("x".to_string(), 0);
    a.insert("y".to_string(), 4);
    let mut b = Stats::new();
    b.insert("x".to_string(), 10);
    let r = interpolate_stats(&a, &b, 3, 10);
    assert_eq!(r.len(), 1);
    assert_eq!(r.get(&"x".to_string()), Some(3));
}

#[test]
fn commits_are_identified_by_hash() {
    assert!(commit("a", 1) == commit("a", 2));
    assert!(commit("a", 1) != commit("b", 1));
    assert!(!commit("a", 1).is_try());
}
