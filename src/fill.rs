//! The interpolated overlay of a whole history: every benchmark filled in at
//! every commit where a neighbour was measured, with a record of each fill.
use vstd::prelude::*;
use crate::data::{is_try_date, Benchmark, CommitData, Interpolation};
use crate::interpolate::{
    all_wf, find_run, interp_run, interp_runs, interpolate_run, interpolate_runs, run_view,
    runs_view, view_key, RunView,
};
use crate::run::Run;

verus! {

/// How many of the most recent commits decide which runs a benchmark has.
pub const RECENT_COMMITS: usize = 20;

/// The index of the first entry named `b`.
pub open spec fn find_entry(entries: Seq<(String, Result<Benchmark, String>)>, b: Seq<char>) -> Option<int>
    decreases entries.len(),
{
    if entries.len() == 0 {
        None
    } else if entries[0].0@ == b {
        Some(0)
    } else {
        match find_entry(entries.drop_first(), b) {
            Some(j) => Some(j + 1),
            None => None,
        }
    }
}

/// What a commit holds for benchmark `b`: its runs, the error, or nothing.
pub open spec fn cell(cd: CommitData, b: Seq<char>) -> Option<Result<Seq<RunView>, Seq<char>>> {
    match find_entry(cd.benchmarks@, b) {
        Some(j) => match cd.benchmarks@[j].1 {
            Ok(bench) => Some(Ok(runs_view(bench.runs@))),
            Err(e) => Some(Err(e@)),
        },
        None => None,
    }
}

/// Benchmark `b` was measured at commit `i`, and `i` is no try build.
pub open spec fn present(data: Seq<CommitData>, i: int, b: Seq<char>) -> bool {
    !is_try_date(data[i].commit.date) && cell(data[i], b) matches Some(Ok(_))
}

pub open spec fn runs_at(data: Seq<CommitData>, i: int, b: Seq<char>) -> Seq<RunView> {
    match cell(data[i], b) {
        Some(Ok(r)) => r,
        _ => Seq::empty(),
    }
}

/// The nearest commit before `i` where `b` was measured (with run `key`, if given).
pub open spec fn prev_present(data: Seq<CommitData>, i: int, b: Seq<char>, key: Option<(bool, bool, (int, Seq<char>))>) -> Option<int>
    decreases i,
{
    if i <= 0 {
        None
    } else if present(data, i - 1, b) && (key matches Some(k) ==> find_run(runs_at(data, i - 1, b), k) is Some) {
        Some(i - 1)
    } else {
        prev_present(data, i - 1, b, key)
    }
}

/// The nearest commit after `i` where `b` was measured (with run `key`, if given).
pub open spec fn next_present(data: Seq<CommitData>, i: int, b: Seq<char>, key: Option<(bool, bool, (int, Seq<char>))>) -> Option<int>
    decreases data.len() - i,
{
    if i + 1 >= data.len() {
        None
    } else if present(data, i + 1, b) && (key matches Some(k) ==> find_run(runs_at(data, i + 1, b), k) is Some) {
        Some(i + 1)
    } else {
        next_present(data, i + 1, b, key)
    }
}

/// The runs of `b` at a commit where it is missing: interpolated between the
/// nearest measured neighbours, or copied from the only one.
pub open spec fn fill_bench(data: Seq<CommitData>, i: int, b: Seq<char>) -> Option<Seq<RunView>> {
    match (prev_present(data, i, b, None), next_present(data, i, b, None)) {
        (Some(s), Some(e)) => Some(interp_runs(runs_at(data, s, b), runs_at(data, e, b), i - s, e - s)),
        (Some(s), None) => Some(runs_at(data, s, b)),
        (None, Some(e)) => Some(runs_at(data, e, b)),
        (None, None) => None,
    }
}

/// Run `t` of `b` at commit `i`, from the nearest commits that have it.
pub open spec fn fill_run(data: Seq<CommitData>, i: int, b: Seq<char>, t: RunView) -> Option<RunView> {
    let key = view_key(t);
    match (prev_present(data, i, b, Some(key)), next_present(data, i, b, Some(key))) {
        (Some(s), Some(e)) => Some(interp_run(
            runs_at(data, s, b)[find_run(runs_at(data, s, b), key)->0],
            runs_at(data, e, b)[find_run(runs_at(data, e, b), key)->0],
            i - s,
            e - s,
        )),
        (Some(s), None) => Some(runs_at(data, s, b)[find_run(runs_at(data, s, b), key)->0]),
        (None, Some(e)) => Some(runs_at(data, e, b)[find_run(runs_at(data, e, b), key)->0]),
        (None, None) => None,
    }
}

/// The known runs that commit `i` lacks, filled, in the order of `known`.
pub open spec fn run_fills(data: Seq<CommitData>, i: int, b: Seq<char>, known: Seq<RunView>) -> Seq<RunView>
    decreases known.len(),
{
    if known.len() == 0 {
        Seq::empty()
    } else {
        let init = run_fills(data, i, b, known.drop_last());
        let t = known.last();
        if find_run(runs_at(data, i, b), view_key(t)) is None && fill_run(data, i, b, t) is Some {
            init.push(fill_run(data, i, b, t)->0)
        } else {
            init
        }
    }
}

/// Adds the runs whose identity is not yet known.
pub open spec fn add_known(known: Seq<RunView>, runs: Seq<RunView>) -> Seq<RunView>
    decreases runs.len(),
{
    if runs.len() == 0 {
        known
    } else {
        let k = add_known(known, runs.drop_last());
        if find_run(k, view_key(runs.last())) is Some {
            k
        } else {
            k.push(runs.last())
        }
    }
}

/// The runs of `b` measured at commits `lo .. hi`, one per identity, in
/// order of first appearance.
pub open spec fn known_runs(data: Seq<CommitData>, b: Seq<char>, lo: int, hi: int) -> Seq<RunView>
    decreases hi - lo,
{
    if hi <= lo {
        Seq::empty()
    } else if present(data, hi - 1, b) {
        add_known(known_runs(data, b, lo, hi - 1), runs_at(data, hi - 1, b))
    } else {
        known_runs(data, b, lo, hi - 1)
    }
}

pub open spec fn window_start(n: int) -> int {
    if n > RECENT_COMMITS { n - RECENT_COMMITS } else { 0 }
}

/// The runs of `b` that the most recent commits show.
pub open spec fn recent_runs(data: Seq<CommitData>, b: Seq<char>) -> Seq<RunView> {
    known_runs(data, b, window_start(data.len() as int), data.len() as int)
}

/// What the overlay holds for `b` at commit `i`. Try builds are kept as
/// they are; a measured benchmark gains the recent runs it lacks; a missing
/// or failed one is filled from its neighbours when it has any.
pub open spec fn out_cell(data: Seq<CommitData>, i: int, b: Seq<char>) -> Option<Result<Seq<RunView>, Seq<char>>> {
    let c = cell(data[i], b);
    if is_try_date(data[i].commit.date) {
        c
    } else {
        match c {
            Some(Ok(runs)) => Some(Ok(runs + run_fills(data, i, b, recent_runs(data, b)))),
            _ => match fill_bench(data, i, b) {
                Some(v) => Some(Ok(v)),
                None => c,
            },
        }
    }
}

/// A record of one fill: the commit's hash, the benchmark, and the run's
/// identity for a run-level fill.
pub type RecordView = (Seq<char>, Seq<char>, Option<(bool, bool, (int, Seq<char>))>);

pub open spec fn run_records(sha: Seq<char>, b: Seq<char>, fills: Seq<RunView>) -> Seq<RecordView> {
    fills.map_values(|v: RunView| (sha, b, Some(view_key(v))))
}

/// The records of the fills of `b` at commit `i`.
pub open spec fn cell_records(data: Seq<CommitData>, i: int, b: Seq<char>) -> Seq<RecordView> {
    let sha = data[i].commit.sha@;
    if is_try_date(data[i].commit.date) {
        Seq::empty()
    } else {
        match cell(data[i], b) {
            Some(Ok(runs)) => run_records(sha, b, run_fills(data, i, b, recent_runs(data, b))),
            _ => if fill_bench(data, i, b) is Some {
                seq![(sha, b, None)]
            } else {
                Seq::empty()
            },
        }
    }
}

/// Every measured run holds well-formed statistics.
pub open spec fn data_wf(data: Seq<CommitData>) -> bool {
    forall|i: int, j: int|
        0 <= i < data.len() && 0 <= j < data[i].benchmarks@.len() ==> match #[trigger] data[i].benchmarks@[j].1 {
            Ok(bench) => all_wf(bench.runs@),
            Err(_) => true,
        }
}

proof fn lemma_find_entry(entries: Seq<(String, Result<Benchmark, String>)>, b: Seq<char>)
    ensures
        match find_entry(entries, b) {
            Some(j) => 0 <= j < entries.len() && entries[j].0@ == b && forall|m: int|
                0 <= m < j ==> (#[trigger] entries[m]).0@ != b,
            None => forall|m: int| 0 <= m < entries.len() ==> (#[trigger] entries[m]).0@ != b,
        },
    decreases entries.len(),
{
    if entries.len() > 0 {
        lemma_find_entry(entries.drop_first(), b);
        assert forall|m: int| 0 < m < entries.len() implies entries[m] == entries.drop_first()[m - 1] by {}
    }
}

fn find_entry_exec(cd: &CommitData, b: &String) -> (r: Option<usize>)
    ensures
        match r {
            Some(j) => find_entry(cd.benchmarks@, b@) == Some(j as int) && j < cd.benchmarks@.len(),
            None => find_entry(cd.benchmarks@, b@) is None,
        },
{
    let ghost es = cd.benchmarks@;
    proof { lemma_find_entry(es, b@); }
    let mut j: usize = 0;
    while j < cd.benchmarks.len()
        invariant
            j <= es.len(),
            es == cd.benchmarks@,
            forall|m: int| 0 <= m < j ==> (#[trigger] es[m]).0@ != b@,
        decreases es.len() - j,
    {
        if cd.benchmarks[j].0 == *b {
            proof {
                lemma_find_entry(es, b@);
                match find_entry(es, b@) {
                    Some(f) => {
                        if f < j { assert(es[f].0@ != b@); }
                        if f > j { assert(es[j as int].0@ != b@); }
                    },
                    None => { assert(es[j as int].0@ != b@); },
                }
            }
            return Some(j);
        }
        j += 1;
    }
    proof {
        lemma_find_entry(es, b@);
        match find_entry(es, b@) {
            Some(f) => { assert(es[f].0@ != b@); },
            None => {},
        }
    }
    None
}

/// The runs commit `i` measured for `b`, if it holds them.
fn ok_runs<'a>(data: &'a Vec<CommitData>, i: usize, b: &String) -> (r: Option<&'a Vec<Run>>)
    requires
        i < data@.len(),
        data_wf(data@),
    ensures
        match r {
            Some(rs) => cell(data@[i as int], b@) == Some(Ok::<Seq<RunView>, Seq<char>>(runs_view(rs@))) && all_wf(rs@),
            None => !(cell(data@[i as int], b@) matches Some(Ok(_))),
        },
{
    match find_entry_exec(&data[i], b) {
        Some(j) => {
            assert(match data@[i as int].benchmarks@[j as int].1 {
                Ok(bench) => all_wf(bench.runs@),
                Err(_) => true,
            });
            match &data[i].benchmarks[j].1 {
                Ok(bench) => Some(&bench.runs),
                Err(_) => None,
            }
        },
        None => None,
    }
}

pub open spec fn key_of(t: Option<&Run>) -> Option<(bool, bool, (int, Seq<char>))> {
    match t {
        Some(r) => Some(view_key(run_view(*r))),
        None => None,
    }
}

/// Whether commit `j` counts as a neighbour for `b` (and for run `t`, if given).
fn is_neighbour(data: &Vec<CommitData>, j: usize, b: &String, t: Option<&Run>) -> (r: bool)
    requires
        j < data@.len(),
        data_wf(data@),
    ensures
        r == (present(data@, j as int, b@) && (key_of(t) matches Some(k) ==> find_run(runs_at(data@, j as int, b@), k) is Some)),
{
    if data[j].commit.is_try() {
        return false;
    }
    match ok_runs(data, j, b) {
        Some(rs) => match t {
            Some(run) => {
                let found = crate::interpolate::find_run_exec(rs, run);
                found.is_some()
            },
            None => true,
        },
        None => false,
    }
}

fn prev_exec(data: &Vec<CommitData>, i: usize, b: &String, t: Option<&Run>) -> (r: Option<usize>)
    requires
        i <= data@.len(),
        data_wf(data@),
    ensures
        match r {
            Some(s) => prev_present(data@, i as int, b@, key_of(t)) == Some(s as int) && s < i,
            None => prev_present(data@, i as int, b@, key_of(t)) is None,
        },
{
    let mut j: usize = i;
    while j > 0
        invariant
            j <= i <= data@.len(),
            data_wf(data@),
            prev_present(data@, i as int, b@, key_of(t)) == prev_present(data@, j as int, b@, key_of(t)),
        decreases j,
    {
        if is_neighbour(data, j - 1, b, t) {
            return Some(j - 1);
        }
        j -= 1;
    }
    None
}

fn next_exec(data: &Vec<CommitData>, i: usize, b: &String, t: Option<&Run>) -> (r: Option<usize>)
    requires
        i < data@.len(),
        data_wf(data@),
    ensures
        match r {
            Some(e) => next_present(data@, i as int, b@, key_of(t)) == Some(e as int) && i < e < data@.len(),
            None => next_present(data@, i as int, b@, key_of(t)) is None,
        },
{
    let mut j: usize = i;
    while j < data.len() - 1
        invariant
            i <= j < data@.len(),
            data_wf(data@),
            next_present(data@, i as int, b@, key_of(t)) == next_present(data@, j as int, b@, key_of(t)),
        decreases data@.len() - j,
    {
        if is_neighbour(data, j + 1, b, t) {
            return Some(j + 1);
        }
        j += 1;
    }
    None
}

fn clone_runs(runs: &Vec<Run>) -> (r: Vec<Run>)
    requires
        all_wf(runs@),
    ensures
        all_wf(r@),
        runs_view(r@) == runs_view(runs@),
{
    let mut r: Vec<Run> = Vec::new();
    let mut i: usize = 0;
    while i < runs.len()
        invariant
            i <= runs@.len(),
            all_wf(runs@),
            all_wf(r@),
            runs_view(r@) == runs_view(runs@.take(i as int)),
        decreases runs@.len() - i,
    {
        assert(runs@[i as int].stats.wf());
        let c = runs[i].clone();
        let ghost before = r@;
        r.push(c);
        assert(runs_view(r@) == runs_view(before).push(run_view(c)));
        assert(runs@.take(i + 1) == runs@.take(i as int).push(runs@[i as int]));
        assert(runs_view(runs@.take(i + 1)) == runs_view(runs@.take(i as int)).push(run_view(runs@[i as int])));
        assert(all_wf(r@)) by {
            assert forall|m: int| 0 <= m < r@.len() implies (#[trigger] r@[m]).stats.wf() by {
                if m < before.len() { assert(r@[m] == before[m]); }
            }
        }
        i += 1;
    }
    assert(runs@.take(runs@.len() as int) == runs@);
    r
}

/// The runs of `b` at commit `i` when the commit lacks them.
fn fill_bench_exec(data: &Vec<CommitData>, i: usize, b: &String) -> (r: Option<Vec<Run>>)
    requires
        i < data@.len(),
        data_wf(data@),
    ensures
        match r {
            Some(v) => fill_bench(data@, i as int, b@) == Some(runs_view(v@)) && all_wf(v@),
            None => fill_bench(data@, i as int, b@) is None,
        },
{
    let s = prev_exec(data, i, b, None);
    let e = next_exec(data, i, b, None);
    proof {
        lemma_prev_found(data@, i as int, b@, None);
        lemma_next_found(data@, i as int, b@, None);
    }
    match (s, e) {
        (Some(s), Some(e)) => {
            let sr = ok_runs(data, s, b);
            let er = ok_runs(data, e, b);
            match (sr, er) {
                (Some(sr), Some(er)) => Some(interpolate_runs(sr, er, i - s, e - s)),
                _ => None,
            }
        },
        (Some(s), None) => match ok_runs(data, s, b) {
            Some(sr) => Some(clone_runs(sr)),
            None => None,
        },
        (None, Some(e)) => match ok_runs(data, e, b) {
            Some(er) => Some(clone_runs(er)),
            None => None,
        },
        (None, None) => None,
    }
}

proof fn lemma_prev_found(data: Seq<CommitData>, i: int, b: Seq<char>, key: Option<(bool, bool, (int, Seq<char>))>)
    ensures
        prev_present(data, i, b, key) matches Some(s) ==> 0 <= s < i && present(data, s, b) && (key matches Some(k) ==> find_run(runs_at(data, s, b), k) is Some),
    decreases i,
{
    if i > 0 {
        lemma_prev_found(data, i - 1, b, key);
    }
}

proof fn lemma_next_found(data: Seq<CommitData>, i: int, b: Seq<char>, key: Option<(bool, bool, (int, Seq<char>))>)
    ensures
        next_present(data, i, b, key) matches Some(e) ==> i < e < data.len() && present(data, e, b) && (key matches Some(k) ==> find_run(runs_at(data, e, b), k) is Some),
    decreases data.len() - i,
{
    if i + 1 < data.len() {
        lemma_next_found(data, i + 1, b, key);
    }
}

/// Run `t` of `b` at commit `i`, from the nearest commits that have it.
fn fill_run_exec(data: &Vec<CommitData>, i: usize, b: &String, t: &Run) -> (r: Option<Run>)
    requires
        i < data@.len(),
        data_wf(data@),
    ensures
        match r {
            Some(v) => fill_run(data@, i as int, b@, run_view(*t)) == Some(run_view(v)) && v.stats.wf(),
            None => fill_run(data@, i as int, b@, run_view(*t)) is None,
        },
{
    let ghost key = view_key(run_view(*t));
    let s = prev_exec(data, i, b, Some(t));
    let e = next_exec(data, i, b, Some(t));
    proof {
        lemma_prev_found(data@, i as int, b@, Some(key));
        lemma_next_found(data@, i as int, b@, Some(key));
    }
    let sr = match s {
        Some(s) => ok_runs(data, s, b),
        None => None,
    };
    let er = match e {
        Some(e) => ok_runs(data, e, b),
        None => None,
    };
    let sj = match sr {
        Some(rs) => crate::interpolate::find_run_exec(rs, t),
        None => None,
    };
    let ej = match er {
        Some(rs) => crate::interpolate::find_run_exec(rs, t),
        None => None,
    };
    match (s, e, sr, er, sj, ej) {
        (Some(s), Some(e), Some(sr), Some(er), Some(sj), Some(ej)) => {
            assert(sr@[sj as int].stats.wf());
            assert(er@[ej as int].stats.wf());
            assert(runs_view(sr@)[sj as int] == run_view(sr@[sj as int]));
            assert(runs_view(er@)[ej as int] == run_view(er@[ej as int]));
            Some(interpolate_run(&sr[sj], &er[ej], i - s, e - s))
        },
        (Some(_), None, Some(sr), _, Some(sj), _) => {
            assert(sr@[sj as int].stats.wf());
            assert(runs_view(sr@)[sj as int] == run_view(sr@[sj as int]));
            let c = sr[sj].clone();
            Some(c)
        },
        (None, Some(_), _, Some(er), _, Some(ej)) => {
            assert(er@[ej as int].stats.wf());
            assert(runs_view(er@)[ej as int] == run_view(er@[ej as int]));
            let c = er[ej].clone();
            Some(c)
        },
        _ => None,
    }
}

fn add_known_exec(known: &mut Vec<Run>, runs: &Vec<Run>)
    requires
        all_wf(old(known)@),
        all_wf(runs@),
    ensures
        all_wf(final(known)@),
        runs_view(final(known)@) == add_known(runs_view(old(known)@), runs_view(runs@)),
{
    let ghost k0 = runs_view(known@);
    let mut i: usize = 0;
    while i < runs.len()
        invariant
            i <= runs@.len(),
            all_wf(runs@),
            all_wf(known@),
            runs_view(known@) == add_known(k0, runs_view(runs@.take(i as int))),
        decreases runs@.len() - i,
    {
        let ghost t = runs@.take(i + 1);
        assert(runs_view(t).drop_last() == runs_view(runs@.take(i as int)));
        assert(runs_view(t).last() == run_view(runs@[i as int]));
        let found = crate::interpolate::find_run_exec(known, &runs[i]);
        if found.is_none() {
            assert(runs@[i as int].stats.wf());
            let c = runs[i].clone();
            let ghost before = known@;
            known.push(c);
            assert(runs_view(known@) == runs_view(before).push(run_view(c)));
            assert(all_wf(known@)) by {
                assert forall|m: int| 0 <= m < known@.len() implies (#[trigger] known@[m]).stats.wf() by {
                    if m < before.len() { assert(known@[m] == before[m]); }
                }
            }
        }
        i += 1;
    }
    assert(runs@.take(runs@.len() as int) == runs@);
}

/// The runs of `b` that the most recent commits show.
fn recent_runs_exec(data: &Vec<CommitData>, b: &String) -> (r: Vec<Run>)
    requires
        data_wf(data@),
    ensures
        all_wf(r@),
        runs_view(r@) == recent_runs(data@, b@),
{
    let n = data.len();
    let lo: usize = if n > RECENT_COMMITS { n - RECENT_COMMITS } else { 0 };
    let mut known: Vec<Run> = Vec::new();
    let mut j: usize = lo;
    while j < n
        invariant
            lo <= j <= n,
            n == data@.len(),
            lo == window_start(n as int),
            data_wf(data@),
            all_wf(known@),
            runs_view(known@) == known_runs(data@, b@, lo as int, j as int),
        decreases n - j,
    {
        if is_neighbour(data, j, b, None) {
            match ok_runs(data, j, b) {
                Some(rs) => {
                    add_known_exec(&mut known, rs);
                },
                None => {},
            }
        }
        j += 1;
    }
    known
}

/// The known runs that commit `i` lacks, filled.
fn run_fills_exec(data: &Vec<CommitData>, i: usize, b: &String, cur: &Vec<Run>, known: &Vec<Run>) -> (r: Vec<Run>)
    requires
        i < data@.len(),
        data_wf(data@),
        runs_view(cur@) == runs_at(data@, i as int, b@),
    ensures
        all_wf(r@),
        runs_view(r@) == run_fills(data@, i as int, b@, runs_view(known@)),
{
    let mut r: Vec<Run> = Vec::new();
    let mut m: usize = 0;
    while m < known.len()
        invariant
            m <= known@.len(),
            i < data@.len(),
            data_wf(data@),
            runs_view(cur@) == runs_at(data@, i as int, b@),
            all_wf(r@),
            runs_view(r@) == run_fills(data@, i as int, b@, runs_view(known@.take(m as int))),
        decreases known@.len() - m,
    {
        let ghost t = known@.take(m + 1);
        assert(runs_view(t).drop_last() == runs_view(known@.take(m as int)));
        assert(runs_view(t).last() == run_view(known@[m as int]));
        let missing = crate::interpolate::find_run_exec(cur, &known[m]).is_none();
        if missing {
            match fill_run_exec(data, i, b, &known[m]) {
                Some(v) => {
                    let ghost before = r@;
                    r.push(v);
                    assert(runs_view(r@) == runs_view(before).push(run_view(v)));
                    assert(all_wf(r@)) by {
                        assert forall|q: int| 0 <= q < r@.len() implies (#[trigger] r@[q]).stats.wf() by {
                            if q < before.len() { assert(r@[q] == before[q]); }
                        }
                    }
                },
                None => {},
            }
        }
        m += 1;
    }
    assert(known@.take(known@.len() as int) == known@);
    r
}

/// What the overlay holds in an entry, by view.
pub open spec fn entry_view(e: Result<Benchmark, String>) -> Result<Seq<RunView>, Seq<char>> {
    match e {
        Ok(bench) => Ok(runs_view(bench.runs@)),
        Err(s) => Err(s@),
    }
}

pub open spec fn record_view(r: Interpolation) -> RecordView {
    (r.sha@, r.benchmark@, match r.run {
        Some(id) => Some(crate::run::run_id_key(id)),
        None => None,
    })
}

fn append_runs(a: &mut Vec<Run>, b: Vec<Run>)
    requires
        all_wf(old(a)@),
        all_wf(b@),
    ensures
        all_wf(final(a)@),
        runs_view(final(a)@) == runs_view(old(a)@) + runs_view(b@),
{
    let mut b = b;
    let ghost a0 = a@;
    let ghost b0 = b@;
    a.append(&mut b);
    assert(a@ == a0 + b0);
    assert(runs_view(a@) == runs_view(a0) + runs_view(b0));
    assert(all_wf(a@)) by {
        assert forall|q: int| 0 <= q < a@.len() implies (#[trigger] a@[q]).stats.wf() by {
            if q < a0.len() { assert(a@[q] == a0[q]); } else { assert(a@[q] == b0[q - a0.len()]); }
        }
    }
}

fn records_for(sha: &String, b: &String, fills: &Vec<Run>, out: &mut Vec<Interpolation>)
    ensures
        final(out)@.map_values(|r: Interpolation| record_view(r)) == old(out)@.map_values(|r: Interpolation| record_view(r))
            + run_records(sha@, b@, runs_view(fills@)),
{
    let ghost o0 = out@.map_values(|r: Interpolation| record_view(r));
    let mut m: usize = 0;
    while m < fills.len()
        invariant
            m <= fills@.len(),
            out@.map_values(|r: Interpolation| record_view(r)) == o0 + run_records(sha@, b@, runs_view(fills@.take(m as int))),
        decreases fills@.len() - m,
    {
        let id = fills[m].id();
        let ghost before = out@;
        out.push(Interpolation { sha: sha.clone(), benchmark: b.clone(), run: Some(id) });
        assert(out@.map_values(|r: Interpolation| record_view(r)) == before.map_values(|r: Interpolation| record_view(r)).push(record_view(out@.last())));
        assert(runs_view(fills@.take(m + 1)) == runs_view(fills@.take(m as int)).push(run_view(fills@[m as int])));
        assert(run_records(sha@, b@, runs_view(fills@.take(m + 1))) == run_records(sha@, b@, runs_view(fills@.take(m as int))).push((sha@, b@, Some(view_key(run_view(fills@[m as int]))))));
        m += 1;
    }
    assert(fills@.take(fills@.len() as int) == fills@);
}

/// Fills benchmark `b` at commit `i`; returns the overlay's entry, if any,
/// and appends the records of what was filled.
fn fill_cell(data: &Vec<CommitData>, i: usize, b: &String, known: &Vec<Run>, records: &mut Vec<Interpolation>) -> (r: Option<Result<Benchmark, String>>)
    requires
        i < data@.len(),
        data_wf(data@),
        runs_view(known@) == recent_runs(data@, b@),
    ensures
        match r {
            Some(e) => out_cell(data@, i as int, b@) == Some(entry_view(e)) && (e matches Ok(bench) ==> bench.name@ == b@ && all_wf(bench.runs@)),
            None => out_cell(data@, i as int, b@) is None,
        },
        final(records)@.map_values(|x: Interpolation| record_view(x)) == old(records)@.map_values(|x: Interpolation| record_view(x))
            + cell_records(data@, i as int, b@),
{
    let sha = &data[i].commit.sha;
    let ghost o0 = records@.map_values(|x: Interpolation| record_view(x));
    let entry = find_entry_exec(&data[i], b);
    let input: Option<Result<Benchmark, String>> = match entry {
        Some(j) => {
            assert(match data@[i as int].benchmarks@[j as int].1 {
                Ok(bench) => all_wf(bench.runs@),
                Err(_) => true,
            });
            match &data[i].benchmarks[j].1 {
                Ok(bench) => Some(Ok(Benchmark { runs: clone_runs(&bench.runs), name: b.clone() })),
                Err(e) => Some(Err(e.clone())),
            }
        },
        None => None,
    };
    if data[i].commit.is_try() {
        assert(records@.map_values(|x: Interpolation| record_view(x)) == o0 + Seq::<RecordView>::empty());
        return input;
    }
    match input {
        Some(Ok(bench)) => {
            let fills = run_fills_exec(data, i, b, &bench.runs, known);
            records_for(sha, b, &fills, records);
            let mut runs = bench.runs;
            append_runs(&mut runs, fills);
            Some(Ok(Benchmark { runs, name: b.clone() }))
        },
        other => match fill_bench_exec(data, i, b) {
            Some(v) => {
                let ghost before = records@;
                records.push(Interpolation { sha: sha.clone(), benchmark: b.clone(), run: None });
                assert(records@.map_values(|x: Interpolation| record_view(x)) == before.map_values(|x: Interpolation| record_view(x)).push(record_view(records@.last())));
                Some(Ok(Benchmark { runs: v, name: b.clone() }))
            },
            None => {
                assert(records@.map_values(|x: Interpolation| record_view(x)) == o0 + Seq::<RecordView>::empty());
                other
            },
        },
    }
}

/// Adds the entry names not yet listed, in entry order.
pub open spec fn add_names(names: Seq<Seq<char>>, es: Seq<(String, Result<Benchmark, String>)>) -> Seq<Seq<char>>
    decreases es.len(),
{
    if es.len() == 0 {
        names
    } else {
        let k = add_names(names, es.drop_last());
        if k.contains(es.last().0@) {
            k
        } else {
            k.push(es.last().0@)
        }
    }
}

/// Every benchmark name of the first `n` commits, once, in order of first appearance.
pub open spec fn names_upto(data: Seq<CommitData>, n: int) -> Seq<Seq<char>>
    decreases n,
{
    if n <= 0 {
        Seq::empty()
    } else {
        add_names(names_upto(data, n - 1), data[n - 1].benchmarks@)
    }
}

pub open spec fn names_of(data: Seq<CommitData>) -> Seq<Seq<char>> {
    names_upto(data, data.len() as int)
}

fn contains_name(names: &Vec<String>, b: &String) -> (r: bool)
    ensures
        r == names@.map_values(|s: String| s@).contains(b@),
{
    let ghost nv = names@.map_values(|s: String| s@);
    let mut i: usize = 0;
    while i < names.len()
        invariant
            i <= names@.len(),
            nv == names@.map_values(|s: String| s@),
            forall|m: int| 0 <= m < i ==> nv[m] != b@,
        decreases names@.len() - i,
    {
        if names[i] == *b {
            assert(nv[i as int] == b@);
            return true;
        }
        i += 1;
    }
    false
}

/// Every benchmark name in the history, once, in order of first appearance.
pub fn benchmark_names(data: &Vec<CommitData>) -> (r: Vec<String>)
    ensures
        r@.map_values(|s: String| s@) == names_of(data@),
{
    let mut names: Vec<String> = Vec::new();
    let mut i: usize = 0;
    while i < data.len()
        invariant
            i <= data@.len(),
            names@.map_values(|s: String| s@) == names_upto(data@, i as int),
        decreases data@.len() - i,
    {
        let es = &data[i].benchmarks;
        let ghost n0 = names@.map_values(|s: String| s@);
        let mut j: usize = 0;
        while j < es.len()
            invariant
                j <= es@.len(),
                es@ == data@[i as int].benchmarks@,
                names@.map_values(|s: String| s@) == add_names(n0, es@.take(j as int)),
            decreases es@.len() - j,
        {
            assert(es@.take(j + 1).drop_last() == es@.take(j as int));
            assert(es@.take(j + 1).last() == es@[j as int]);
            if !contains_name(&names, &es[j].0) {
                let ghost before = names@;
                names.push(es[j].0.clone());
                assert(names@.map_values(|s: String| s@) == before.map_values(|s: String| s@).push(es@[j as int].0@));
            }
            j += 1;
        }
        assert(es@.take(es@.len() as int) == es@);
        i += 1;
    }
    names
}

/// The overlay's entries at commit `i`, in the order of `names`.
pub open spec fn out_entries(data: Seq<CommitData>, names: Seq<Seq<char>>, i: int) -> Seq<(Seq<char>, Result<Seq<RunView>, Seq<char>>)>
    decreases names.len(),
{
    if names.len() == 0 {
        Seq::empty()
    } else {
        let init = out_entries(data, names.drop_last(), i);
        match out_cell(data, i, names.last()) {
            Some(c) => init.push((names.last(), c)),
            None => init,
        }
    }
}

/// The records of the fills at commit `i`, in the order of `names`.
pub open spec fn commit_records(data: Seq<CommitData>, names: Seq<Seq<char>>, i: int) -> Seq<RecordView>
    decreases names.len(),
{
    if names.len() == 0 {
        Seq::empty()
    } else {
        commit_records(data, names.drop_last(), i) + cell_records(data, i, names.last())
    }
}

/// The records of the fills at the first `n` commits.
pub open spec fn records_upto(data: Seq<CommitData>, names: Seq<Seq<char>>, n: int) -> Seq<RecordView>
    decreases n,
{
    if n <= 0 {
        Seq::empty()
    } else {
        records_upto(data, names, n - 1) + commit_records(data, names, n - 1)
    }
}

pub open spec fn entries_view(es: Seq<(String, Result<Benchmark, String>)>) -> Seq<(Seq<char>, Result<Seq<RunView>, Seq<char>>)> {
    es.map_values(|e: (String, Result<Benchmark, String>)| (e.0@, entry_view(e.1)))
}

/// The interpolated overlay of a history of commits, in the order given, and
/// the record of every value in it that was filled in rather than measured.
///
/// At each commit that is no try build, a benchmark that was not measured
/// takes the runs of its nearest measured neighbours: interpolated run by run
/// and statistic by statistic between two, copied from one. A measured
/// benchmark gains, the same way, each run of the last `RECENT_COMMITS`
/// commits that it lacks. Try builds keep what was measured.
pub fn interpolate(data: &Vec<CommitData>) -> (r: (Vec<CommitData>, Vec<Interpolation>))
    requires
        data_wf(data@),
    ensures
        r.0@.len() == data@.len(),
        forall|i: int| 0 <= i < data@.len() ==> (#[trigger] r.0@[i]).commit == data@[i].commit
            && r.0@[i].triple == data@[i].triple
            && entries_view(r.0@[i].benchmarks@) == out_entries(data@, names_of(data@), i),
        data_wf(r.0@),
        r.1@.map_values(|x: Interpolation| record_view(x)) == records_upto(data@, names_of(data@), data@.len() as int),
{
    let names = benchmark_names(data);
    let ghost nv = names@.map_values(|s: String| s@);
    let mut knowns: Vec<Vec<Run>> = Vec::new();
    let mut m: usize = 0;
    while m < names.len()
        invariant
            m <= names@.len(),
            data_wf(data@),
            knowns@.len() == m,
            nv == names@.map_values(|s: String| s@),
            forall|q: int| 0 <= q < m ==> runs_view(#[trigger] knowns@[q]@) == recent_runs(data@, nv[q]),
        decreases names@.len() - m,
    {
        knowns.push(recent_runs_exec(data, &names[m]));
        m += 1;
    }
    let mut out: Vec<CommitData> = Vec::new();
    let mut records: Vec<Interpolation> = Vec::new();
    let mut i: usize = 0;
    while i < data.len()
        invariant
            i <= data@.len(),
            data_wf(data@),
            data_wf(out@),
            nv == names@.map_values(|s: String| s@),
            nv == names_of(data@),
            knowns@.len() == names@.len(),
            forall|q: int| 0 <= q < names@.len() ==> runs_view(#[trigger] knowns@[q]@) == recent_runs(data@, nv[q]),
            out@.len() == i,
            forall|c: int| 0 <= c < i ==> (#[trigger] out@[c]).commit == data@[c].commit
                && out@[c].triple == data@[c].triple
                && entries_view(out@[c].benchmarks@) == out_entries(data@, nv, c),
            records@.map_values(|x: Interpolation| record_view(x)) == records_upto(data@, nv, i as int),
        decreases data@.len() - i,
    {
        let mut entries: Vec<(String, Result<Benchmark, String>)> = Vec::new();
        let mut m: usize = 0;
        let ghost r0 = records@.map_values(|x: Interpolation| record_view(x));
        while m < names.len()
            invariant
                m <= names@.len(),
                i < data@.len(),
                data_wf(data@),
                nv == names@.map_values(|s: String| s@),
                knowns@.len() == names@.len(),
                forall|q: int| 0 <= q < names@.len() ==> runs_view(#[trigger] knowns@[q]@) == recent_runs(data@, nv[q]),
                entries_view(entries@) == out_entries(data@, nv.take(m as int), i as int),
                forall|q: int| 0 <= q < entries@.len() ==> match (#[trigger] entries@[q]).1 {
                    Ok(bench) => all_wf(bench.runs@),
                    Err(_) => true,
                },
                records@.map_values(|x: Interpolation| record_view(x)) == r0 + commit_records(data@, nv.take(m as int), i as int),
            decreases names@.len() - m,
        {
            assert(nv.take(m + 1).drop_last() == nv.take(m as int));
            assert(nv.take(m + 1).last() == names@[m as int]@);
            let ghost rec_before = records@.map_values(|x: Interpolation| record_view(x));
            let cell = fill_cell(data, i, &names[m], &knowns[m], &mut records);
            match cell {
                Some(e) => {
                    let ghost before = entries@;
                    entries.push((names[m].clone(), e));
                    assert(entries_view(entries@) == entries_view(before).push((names@[m as int]@, entry_view(e))));
                    assert(forall|q: int| 0 <= q < entries@.len() ==> match (#[trigger] entries@[q]).1 {
                        Ok(bench) => all_wf(bench.runs@),
                        Err(_) => true,
                    }) by {
                        assert forall|q: int| 0 <= q < entries@.len() implies match (#[trigger] entries@[q]).1 {
                            Ok(bench) => all_wf(bench.runs@),
                            Err(_) => true,
                        } by {
                            if q < before.len() { assert(entries@[q] == before[q]); }
                        }
                    }
                },
                None => {},
            }
            assert(rec_before == r0 + commit_records(data@, nv.take(m as int), i as int));
            assert(commit_records(data@, nv.take(m + 1), i as int) == commit_records(data@, nv.take(m as int), i as int) + cell_records(data@, i as int, names@[m as int]@));
            m += 1;
        }
        assert(nv.take(nv.len() as int) == nv);
        let cd = CommitData { commit: data[i].commit.clone(), benchmarks: entries, triple: data[i].triple.clone() };
        let ghost before = out@;
        out.push(cd);
        assert forall|c: int| 0 <= c < i + 1 implies (#[trigger] out@[c]).commit == data@[c].commit
            && out@[c].triple == data@[c].triple
            && entries_view(out@[c].benchmarks@) == out_entries(data@, nv, c) by {
            if c < i { assert(out@[c] == before[c]); }
        }
        assert(data_wf(out@)) by {
            assert forall|c: int, j: int| 0 <= c < out@.len() && 0 <= j < out@[c].benchmarks@.len() implies match #[trigger] out@[c].benchmarks@[j].1 {
                Ok(bench) => all_wf(bench.runs@),
                Err(_) => true,
            } by {
                if c < i { assert(out@[c] == before[c]); }
            }
        }
        i += 1;
    }
    (out, records)
}

proof fn lemma_add_known_origin(known: Seq<RunView>, runs: Seq<RunView>)
    ensures
        forall|x: RunView| #[trigger] add_known(known, runs).contains(x) ==> known.contains(x) || runs.contains(x),
    decreases runs.len(),
{
    if runs.len() > 0 {
        lemma_add_known_origin(known, runs.drop_last());
        assert forall|x: RunView| #[trigger] add_known(known, runs).contains(x) implies known.contains(x) || runs.contains(x) by {
            let k = add_known(known, runs.drop_last());
            if k.contains(x) {
                if runs.drop_last().contains(x) {
                    let m = choose|m: int| 0 <= m < runs.drop_last().len() && runs.drop_last()[m] == x;
                    assert(runs[m] == x);
                }
            } else {
                assert(add_known(known, runs) == k.push(runs.last()));
                let m = choose|m: int| 0 <= m < k.push(runs.last()).len() && k.push(runs.last())[m] == x;
                assert(m == k.len());
                assert(runs[runs.len() - 1] == x);
            }
        }
    }
}

proof fn lemma_known_origin(data: Seq<CommitData>, b: Seq<char>, lo: int, hi: int)
    ensures
        forall|x: RunView| #[trigger] known_runs(data, b, lo, hi).contains(x) ==> exists|j: int|
            lo <= j < hi && present(data, j, b) && runs_at(data, j, b).contains(x),
    decreases hi - lo,
{
    if hi > lo {
        lemma_known_origin(data, b, lo, hi - 1);
        if present(data, hi - 1, b) {
            lemma_add_known_origin(known_runs(data, b, lo, hi - 1), runs_at(data, hi - 1, b));
        }
        assert forall|x: RunView| #[trigger] known_runs(data, b, lo, hi).contains(x) implies exists|j: int|
            lo <= j < hi && present(data, j, b) && runs_at(data, j, b).contains(x) by {
            if known_runs(data, b, lo, hi - 1).contains(x) {
                let j = choose|j: int| lo <= j < hi - 1 && present(data, j, b) && runs_at(data, j, b).contains(x);
                assert(lo <= j < hi);
            } else {
                assert(present(data, hi - 1, b) && runs_at(data, hi - 1, b).contains(x));
            }
        }
    }
}

proof fn lemma_no_run_fills(data: Seq<CommitData>, i: int, b: Seq<char>, known: Seq<RunView>)
    requires
        forall|q: int| 0 <= q < known.len() ==> find_run(runs_at(data, i, b), view_key(#[trigger] known[q])) is Some,
    ensures
        run_fills(data, i, b, known) == Seq::<RunView>::empty(),
    decreases known.len(),
{
    if known.len() > 0 {
        assert forall|q: int| 0 <= q < known.drop_last().len() implies find_run(runs_at(data, i, b), view_key(#[trigger] known.drop_last()[q])) is Some by {
            assert(known.drop_last()[q] == known[q]);
        }
        lemma_no_run_fills(data, i, b, known.drop_last());
        assert(find_run(runs_at(data, i, b), view_key(known[known.len() - 1])) is Some);
    }
}

proof fn lemma_contains_found(runs: Seq<RunView>, x: RunView)
    requires
        runs.contains(x),
    ensures
        find_run(runs, view_key(x)) is Some,
{
    crate::interpolate::lemma_find_run(runs, view_key(x));
    if find_run(runs, view_key(x)) is None {
        let m = choose|m: int| 0 <= m < runs.len() && runs[m] == x;
        assert(view_key(runs[m]) != view_key(x));
    }
}

proof fn lemma_prev_exists(data: Seq<CommitData>, i: int, b: Seq<char>, key: (bool, bool, (int, Seq<char>)), j: int)
    requires
        0 <= j < i,
        present(data, j, b),
        find_run(runs_at(data, j, b), key) is Some,
    ensures
        prev_present(data, i, b, Some(key)) is Some,
    decreases i,
{
    if j < i - 1 && !(present(data, i - 1, b) && find_run(runs_at(data, i - 1, b), key) is Some) {
        lemma_prev_exists(data, i - 1, b, key, j);
    }
}

proof fn lemma_next_exists(data: Seq<CommitData>, i: int, b: Seq<char>, key: (bool, bool, (int, Seq<char>)), j: int)
    requires
        i < j < data.len(),
        present(data, j, b),
        find_run(runs_at(data, j, b), key) is Some,
    ensures
        next_present(data, i, b, Some(key)) is Some,
    decreases data.len() - i,
{
    if j > i + 1 && !(present(data, i + 1, b) && find_run(runs_at(data, i + 1, b), key) is Some) {
        lemma_next_exists(data, i + 1, b, key, j);
    }
}

/// A run that the recent commits show and that a commit lacks always has a
/// measured neighbour, so it is always filled: a missing run can only be
/// one that was measured somewhere else.
pub proof fn lemma_missing_runs_have_neighbours(data: Seq<CommitData>, i: int, b: Seq<char>, t: RunView)
    requires
        0 <= i < data.len(),
        recent_runs(data, b).contains(t),
        find_run(runs_at(data, i, b), view_key(t)) is None,
    ensures
        fill_run(data, i, b, t) is Some,
{
    lemma_known_origin(data, b, window_start(data.len() as int), data.len() as int);
    let j = choose|j: int| window_start(data.len() as int) <= j < data.len() && present(data, j, b) && runs_at(data, j, b).contains(t);
    lemma_contains_found(runs_at(data, j, b), t);
    if j < i {
        lemma_prev_exists(data, i, b, view_key(t), j);
    } else if j > i {
        lemma_next_exists(data, i, b, view_key(t), j);
    }
}

/// A benchmark filled in at commit `i` between its measured neighbours `s`
/// and `e` is the interpolation of their runs, and every statistic
/// interpolated between a run at `s` and a run at `e` lies between its two
/// values: interpolation never overshoots (`lemma_interp_runs_bounded` gives
/// which runs are paired).
pub proof fn lemma_filled_values_bounded(data: Seq<CommitData>, i: int, b: Seq<char>, s: int, e: int)
    requires
        prev_present(data, i, b, None) == Some(s),
        next_present(data, i, b, None) == Some(e),
    ensures
        s < i < e,
        fill_bench(data, i, b) == Some(interp_runs(runs_at(data, s, b), runs_at(data, e, b), i - s, e - s)),
        forall|a: int, c: int, n: Seq<char>|
            0 <= a < runs_at(data, s, b).len() && 0 <= c < runs_at(data, e, b).len()
                && #[trigger] crate::interpolate::interp_map(runs_at(data, s, b)[a].3, runs_at(data, e, b)[c].3, i - s, e - s).contains_key(n)
                ==> {
                let v = crate::interpolate::interp_map(runs_at(data, s, b)[a].3, runs_at(data, e, b)[c].3, i - s, e - s)[n];
                let x = runs_at(data, s, b)[a].3[n];
                let y = runs_at(data, e, b)[c].3[n];
                (x <= y ==> x <= v <= y) && (y <= x ==> y <= v <= x)
            },
{
    lemma_prev_found(data, i, b, None);
    lemma_next_found(data, i, b, None);
    let sr = runs_at(data, s, b);
    let er = runs_at(data, e, b);
    crate::interpolate::lemma_interp_runs_bounded(sr, er, i - s, e - s);
}

/// Every benchmark of the history was measured at every commit, and every
/// run measured anywhere was measured at every commit.
pub open spec fn dense(data: Seq<CommitData>) -> bool {
    &&& forall|i: int, b: Seq<char>|
        0 <= i < data.len() && #[trigger] names_of(data).contains(b) ==> (#[trigger] cell(data[i], b) matches Some(Ok(_)))
    &&& forall|i: int, j: int, b: Seq<char>, x: RunView|
        0 <= i < data.len() && 0 <= j < data.len() && names_of(data).contains(b) && #[trigger] runs_at(data, j, b).contains(x)
            ==> #[trigger] find_run(runs_at(data, i, b), view_key(x)) is Some
}

proof fn lemma_dense_cell(data: Seq<CommitData>, i: int, b: Seq<char>)
    requires
        dense(data),
        0 <= i < data.len(),
        names_of(data).contains(b),
    ensures
        out_cell(data, i, b) == cell(data[i], b),
        cell_records(data, i, b) == Seq::<RecordView>::empty(),
{
    let known = recent_runs(data, b);
    lemma_known_origin(data, b, window_start(data.len() as int), data.len() as int);
    assert forall|q: int| 0 <= q < known.len() implies find_run(runs_at(data, i, b), view_key(#[trigger] known[q])) is Some by {
        assert(known.contains(known[q]));
        let j = choose|j: int| window_start(data.len() as int) <= j < data.len() && present(data, j, b) && runs_at(data, j, b).contains(known[q]);
        assert(runs_at(data, j, b).contains(known[q]));
    }
    lemma_no_run_fills(data, i, b, known);
    assert(cell(data[i], b) matches Some(Ok(_)));
    match cell(data[i], b) {
        Some(Ok(runs)) => {
            assert(runs + Seq::<RunView>::empty() == runs);
            assert(run_records(data[i].commit.sha@, b, Seq::<RunView>::empty()) == Seq::<RecordView>::empty());
        },
        _ => {},
    }
}

proof fn lemma_dense_commit_records(data: Seq<CommitData>, names: Seq<Seq<char>>, i: int)
    requires
        dense(data),
        0 <= i < data.len(),
        forall|m: int| 0 <= m < names.len() ==> names_of(data).contains(#[trigger] names[m]),
    ensures
        commit_records(data, names, i) == Seq::<RecordView>::empty(),
    decreases names.len(),
{
    if names.len() > 0 {
        assert forall|m: int| 0 <= m < names.drop_last().len() implies names_of(data).contains(#[trigger] names.drop_last()[m]) by {
            assert(names.drop_last()[m] == names[m]);
        }
        lemma_dense_commit_records(data, names.drop_last(), i);
        assert(names_of(data).contains(names[names.len() - 1]));
        lemma_dense_cell(data, i, names.last());
        assert(Seq::<RecordView>::empty() + Seq::<RecordView>::empty() == Seq::<RecordView>::empty());
    }
}

proof fn lemma_dense_records(data: Seq<CommitData>, n: int)
    requires
        dense(data),
        0 <= n <= data.len(),
    ensures
        records_upto(data, names_of(data), n) == Seq::<RecordView>::empty(),
    decreases n,
{
    if n > 0 {
        lemma_dense_records(data, n - 1);
        assert forall|m: int| 0 <= m < names_of(data).len() implies names_of(data).contains(#[trigger] names_of(data)[m]) by {}
        lemma_dense_commit_records(data, names_of(data), n - 1);
        assert(Seq::<RecordView>::empty() + Seq::<RecordView>::empty() == Seq::<RecordView>::empty());
    }
}

/// On a history where everything was measured, interpolation changes
/// nothing and records nothing.
pub proof fn lemma_dense_history_unchanged(data: Seq<CommitData>)
    requires
        dense(data),
    ensures
        forall|i: int, b: Seq<char>| 0 <= i < data.len() && #[trigger] names_of(data).contains(b) ==> #[trigger] out_cell(data, i, b) == cell(data[i], b),
        records_upto(data, names_of(data), data.len() as int) == Seq::<RecordView>::empty(),
{
    assert forall|i: int, b: Seq<char>| 0 <= i < data.len() && #[trigger] names_of(data).contains(b) implies #[trigger] out_cell(data, i, b) == cell(data[i], b) by {
        lemma_dense_cell(data, i, b);
    }
    lemma_dense_records(data, data.len() as int);
}

} // verus!
