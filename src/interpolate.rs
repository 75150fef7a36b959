//! Filling gaps in the history of measurements by linear interpolation
//! between the nearest measured neighbours.
use vstd::prelude::*;
use crate::run::{state_key, Run};
use crate::stats::{map_of, Stats};

verus! {

/// The value `from_start / distance` of the way from `start` to `end`,
/// rounded towards `start`.
pub open spec fn lerp(start: u128, end: u128, from_start: int, distance: int) -> int {
    if end >= start {
        start + (end - start) * from_start / distance
    } else {
        start - (start - end) * from_start / distance
    }
}

proof fn lemma_frac_bound(diff: int, k: int, d: int)
    requires
        0 <= diff,
        0 <= k <= d,
        0 < d,
    ensures
        0 <= diff * k / d <= diff,
{
    assert(0 <= diff * k) by (nonlinear_arith)
        requires
            0 <= diff,
            0 <= k,
    ;
    assert(diff * k <= diff * d) by (nonlinear_arith)
        requires
            0 <= diff,
            k <= d,
    ;
    vstd::arithmetic::div_mod::lemma_div_is_ordered(diff * k, diff * d, d);
    vstd::arithmetic::div_mod::lemma_div_multiples_vanish(diff, d);
    assert(diff * d == d * diff) by (nonlinear_arith);
    vstd::arithmetic::div_mod::lemma_div_pos_is_pos(diff * k, d);
}

/// Interpolates between two measurements `distance` commits apart, at
/// `from_start` commits after the first.
pub fn interpolate_value(start: u128, end: u128, from_start: usize, distance: usize) -> (r: u128)
    requires
        0 < distance,
        from_start <= distance,
    ensures
        r == lerp(start, end, from_start as int, distance as int),
        (start <= end ==> start <= r <= end),
        (end <= start ==> end <= r <= start),
        from_start == 0 ==> r == start,
        from_start == distance ==> r == end,
{
    let k = from_start as u128;
    let d = distance as u128;
    let (diff, up) = if end >= start { (end - start, true) } else { (start - end, false) };
    let q = diff / d;
    let rem = diff % d;
    proof {
        lemma_frac_bound(diff as int, k as int, d as int);
        vstd::arithmetic::div_mod::lemma_fundamental_div_mod(diff as int, d as int);
        assert(q * k <= diff) by (nonlinear_arith)
            requires
                d * q + rem == diff,
                0 <= rem,
                0 <= q,
                0 <= k <= d,
        ;
        assert(rem * k < d * d) by (nonlinear_arith)
            requires
                0 <= rem < d,
                0 <= k <= d,
        ;
        assert((d as int) * (d as int) <= u128::MAX) by (nonlinear_arith)
            requires
                0 < d <= usize::MAX,
                usize::MAX <= u64::MAX,
        ;
        // diff * k == (q * k) * d + rem * k, so the quotient splits
        assert(diff * k == (q * k) * d + rem * k) by (nonlinear_arith)
            requires
                diff == d * q + rem,
        ;
        vstd::arithmetic::div_mod::lemma_hoist_over_denominator(rem as int * k as int, q as int * k as int, d as nat);
        vstd::arithmetic::div_mod::lemma_div_pos_is_pos(rem as int * k as int, d as int);
        if k == d {
            vstd::arithmetic::div_mod::lemma_div_by_multiple(diff as int, d as int);
        }
        if k == 0 {
            assert((diff as int) * (k as int) == 0) by (nonlinear_arith)
                requires
                    k == 0,
            ;
            assert(0int / (d as int) == 0);
        }
    }
    let part = q * k + (rem * k) / d;
    proof {
        assert(part == diff * k / (d as int));
    }
    if up {
        start + part
    } else {
        start - part
    }
}

/// The statistics measured at both ends, each interpolated.
pub open spec fn interp_map(
    s: Map<Seq<char>, u128>,
    e: Map<Seq<char>, u128>,
    k: int,
    d: int,
) -> Map<Seq<char>, u128> {
    Map::new(
        |n: Seq<char>| s.contains_key(n) && e.contains_key(n),
        |n: Seq<char>| lerp(s[n], e[n], k, d) as u128,
    )
}

/// Interpolates every statistic that both `start` and `end` hold.
pub fn interpolate_stats(start: &Stats, end: &Stats, from_start: usize, distance: usize) -> (r: Stats)
    requires
        start.wf(),
        end.wf(),
        0 < distance,
        from_start <= distance,
    ensures
        r.wf(),
        r@ == interp_map(start@, end@, from_start as int, distance as int),
{
    let entries = start.entries();
    let mut r = Stats::new();
    let mut i: usize = 0;
    while i < entries.len()
        invariant
            i <= entries@.len(),
            start.wf(),
            end.wf(),
            0 < distance,
            from_start <= distance,
            crate::stats::names_distinct(entries@),
            map_of(entries@) == start@,
            r.wf(),
            r@ == interp_map(map_of(entries@.take(i as int)), end@, from_start as int, distance as int),
        decreases entries@.len() - i,
    {
        let name = &entries[i].0;
        let ghost t = entries@.take(i + 1);
        assert(t.drop_last() == entries@.take(i as int));
        assert(t.last() == entries@[i as int]);
        match end.get(name) {
            Some(ev) => {
                let v = interpolate_value(entries[i].1, ev, from_start, distance);
                r.insert(name.clone(), v);
            },
            None => {},
        }
        assert(r@ =~= interp_map(map_of(t), end@, from_start as int, distance as int));
        i += 1;
    }
    assert(entries@.take(entries@.len() as int) == entries@);
    r
}

/// Interpolation never overshoots: every interpolated statistic lies between
/// its values at the two neighbours, and it is interpolated exactly when both
/// neighbours measured it.
pub proof fn lemma_interpolation_bounded(s: Map<Seq<char>, u128>, e: Map<Seq<char>, u128>, k: int, d: int)
    requires
        0 < d,
        0 <= k <= d,
    ensures
        forall|n: Seq<char>| #[trigger] interp_map(s, e, k, d).contains_key(n) <==> s.contains_key(n) && e.contains_key(n),
        forall|n: Seq<char>| #[trigger] interp_map(s, e, k, d).contains_key(n) ==> {
            let v = interp_map(s, e, k, d)[n];
            (s[n] <= e[n] ==> s[n] <= v <= e[n]) && (e[n] <= s[n] ==> e[n] <= v <= s[n])
        },
{
    assert forall|n: Seq<char>| #[trigger] interp_map(s, e, k, d).contains_key(n) implies {
        let v = interp_map(s, e, k, d)[n];
        (s[n] <= e[n] ==> s[n] <= v <= e[n]) && (e[n] <= s[n] ==> e[n] <= v <= s[n])
    } by {
        if s[n] <= e[n] {
            lemma_frac_bound(e[n] - s[n], k, d);
        } else {
            lemma_frac_bound(s[n] - e[n], k, d);
        }
    }
}

/// What interpolation keeps of a run: its kind, state and statistics.
pub type RunView = (bool, bool, crate::run::BenchmarkState, Map<Seq<char>, u128>);

pub open spec fn run_view(r: Run) -> RunView {
    (r.check, r.release, r.state, r.stats@)
}

pub open spec fn view_key(v: RunView) -> (bool, bool, (int, Seq<char>)) {
    (v.0, v.1, state_key(v.2))
}

/// The run `k` of `d` commits from `s` towards `e`.
pub open spec fn interp_run(s: RunView, e: RunView, k: int, d: int) -> RunView {
    (s.0, s.1, s.2, interp_map(s.3, e.3, k, d))
}

/// The run between `s` and `e`, `from_start` commits after `s`.
pub fn interpolate_run(s: &Run, e: &Run, from_start: usize, distance: usize) -> (r: Run)
    requires
        s.stats.wf(),
        e.stats.wf(),
        0 < distance,
        from_start <= distance,
    ensures
        r.stats.wf(),
        run_view(r) == interp_run(run_view(*s), run_view(*e), from_start as int, distance as int),
        r.self_profile.is_none(),
{
    Run {
        stats: interpolate_stats(&s.stats, &e.stats, from_start, distance),
        self_profile: None,
        check: s.check,
        release: s.release,
        state: s.state.clone(),
    }
}

/// The index of the first run with the key, if any.
pub open spec fn find_run(runs: Seq<RunView>, key: (bool, bool, (int, Seq<char>))) -> Option<int>
    decreases runs.len(),
{
    if runs.len() == 0 {
        None
    } else if view_key(runs[0]) == key {
        Some(0)
    } else {
        match find_run(runs.drop_first(), key) {
            Some(j) => Some(j + 1),
            None => None,
        }
    }
}

pub proof fn lemma_find_run(runs: Seq<RunView>, key: (bool, bool, (int, Seq<char>)))
    ensures
        match find_run(runs, key) {
            Some(j) => 0 <= j < runs.len() && view_key(runs[j]) == key && forall|m: int|
                0 <= m < j ==> view_key(#[trigger] runs[m]) != key,
            None => forall|m: int| 0 <= m < runs.len() ==> view_key(#[trigger] runs[m]) != key,
        },
    decreases runs.len(),
{
    if runs.len() > 0 {
        lemma_find_run(runs.drop_first(), key);
        assert forall|m: int| 0 < m < runs.len() implies runs[m] == runs.drop_first()[m - 1] by {}
    }
}

pub open spec fn runs_view(runs: Seq<Run>) -> Seq<RunView> {
    runs.map_values(|r: Run| run_view(r))
}

pub open spec fn all_wf(runs: Seq<Run>) -> bool {
    forall|j: int| 0 <= j < runs.len() ==> (#[trigger] runs[j]).stats.wf()
}

/// Finds the first run of `runs` with the identity of `key_of`.
pub fn find_run_exec(runs: &Vec<Run>, key_of: &Run) -> (r: Option<usize>)
    ensures
        match r {
            Some(j) => find_run(runs_view(runs@), view_key(run_view(*key_of))) == Some(j as int) && j < runs@.len(),
            None => find_run(runs_view(runs@), view_key(run_view(*key_of))) is None,
        },
{
    let ghost key = view_key(run_view(*key_of));
    let ghost rv = runs_view(runs@);
    proof { lemma_find_run(rv, key); }
    let mut j: usize = 0;
    while j < runs.len()
        invariant
            j <= runs@.len(),
            rv == runs_view(runs@),
            key == view_key(run_view(*key_of)),
            forall|m: int| 0 <= m < j ==> view_key(#[trigger] rv[m]) != key,
        decreases runs@.len() - j,
    {
        let id = key_of.id();
        if runs[j].has_id(&id) {
            proof {
                lemma_find_run(rv, key);
                assert(view_key(rv[j as int]) == key);
                match find_run(rv, key) {
                    Some(f) => {
                        if f < j {
                            assert(view_key(rv[f]) != key);
                        }
                        if f > j {
                            assert(view_key(rv[j as int]) != key);
                        }
                    },
                    None => {
                        assert(view_key(rv[j as int]) != key);
                    },
                }
            }
            return Some(j);
        }
        j += 1;
    }
    proof {
        lemma_find_run(rv, key);
        match find_run(rv, key) {
            Some(f) => {
                assert(view_key(rv[f]) != key);
            },
            None => {},
        }
    }
    None
}

/// The runs of `s` that `e` also has, matched by identity, interpolated.
pub open spec fn interp_runs(s: Seq<RunView>, e: Seq<RunView>, k: int, d: int) -> Seq<RunView>
    decreases s.len(),
{
    if s.len() == 0 {
        Seq::empty()
    } else {
        let init = interp_runs(s.drop_last(), e, k, d);
        match find_run(e, view_key(s.last())) {
            Some(j) => init.push(interp_run(s.last(), e[j], k, d)),
            None => init,
        }
    }
}

/// Each run of `interp_runs` comes from a run of `s` and the run of `e` with
/// the same identity, and each of its statistics lies between their values.
pub proof fn lemma_interp_runs_bounded(s: Seq<RunView>, e: Seq<RunView>, k: int, d: int)
    requires
        0 < d,
        0 <= k <= d,
    ensures
        forall|q: int| #![trigger interp_runs(s, e, k, d)[q]] 0 <= q < interp_runs(s, e, k, d).len() ==> exists|a: int, c: int|
            #![trigger s[a], e[c]]
            0 <= a < s.len() && 0 <= c < e.len() && view_key(s[a]) == view_key(e[c])
                && interp_runs(s, e, k, d)[q] == interp_run(s[a], e[c], k, d),
        forall|a: int, c: int, n: Seq<char>|
            0 <= a < s.len() && 0 <= c < e.len() && #[trigger] interp_map(s[a].3, e[c].3, k, d).contains_key(n) ==> {
                let v = interp_map(s[a].3, e[c].3, k, d)[n];
                let x = s[a].3[n];
                let y = e[c].3[n];
                (x <= y ==> x <= v <= y) && (y <= x ==> y <= v <= x)
            },
    decreases s.len(),
{
    assert forall|a: int, c: int, n: Seq<char>|
        0 <= a < s.len() && 0 <= c < e.len() && #[trigger] interp_map(s[a].3, e[c].3, k, d).contains_key(n) implies {
            let v = interp_map(s[a].3, e[c].3, k, d)[n];
            let x = s[a].3[n];
            let y = e[c].3[n];
            (x <= y ==> x <= v <= y) && (y <= x ==> y <= v <= x)
        } by {
        lemma_interpolation_bounded(s[a].3, e[c].3, k, d);
    }
    if s.len() > 0 {
        let init = s.drop_last();
        lemma_interp_runs_bounded(init, e, k, d);
        let r = interp_runs(s, e, k, d);
        let ri = interp_runs(init, e, k, d);
        lemma_find_run(e, view_key(s.last()));
        assert forall|q: int| #![trigger r[q]] 0 <= q < r.len() implies exists|a: int, c: int|
            #![trigger s[a], e[c]]
            0 <= a < s.len() && 0 <= c < e.len() && view_key(s[a]) == view_key(e[c])
                && r[q] == interp_run(s[a], e[c], k, d) by {
            if q < ri.len() {
                assert(ri[q] == ri[q]);
                let (a, c) = choose|a: int, c: int| #![trigger init[a], e[c]] 0 <= a < init.len() && 0 <= c < e.len() && view_key(init[a]) == view_key(e[c])
                    && ri[q] == interp_run(init[a], e[c], k, d);
                assert(init[a] == s[a]);
                assert(r[q] == ri[q]);
                assert(s[a] == s[a] && e[c] == e[c]);
            } else {
                let c = find_run(e, view_key(s.last()))->0;
                assert(r[q] == interp_run(s[s.len() - 1], e[c], k, d));
                assert(s[s.len() - 1] == s[s.len() - 1] && e[c] == e[c]);
            }
        }
    }
}

/// Interpolates every run that both ends have, in the order of `start`.
pub fn interpolate_runs(start: &Vec<Run>, end: &Vec<Run>, from_start: usize, distance: usize) -> (r: Vec<Run>)
    requires
        all_wf(start@),
        all_wf(end@),
        0 < distance,
        from_start <= distance,
    ensures
        all_wf(r@),
        runs_view(r@) == interp_runs(runs_view(start@), runs_view(end@), from_start as int, distance as int),
{
    let mut r: Vec<Run> = Vec::new();
    let mut i: usize = 0;
    while i < start.len()
        invariant
            i <= start@.len(),
            all_wf(start@),
            all_wf(end@),
            0 < distance,
            from_start <= distance,
            all_wf(r@),
            runs_view(r@) == interp_runs(runs_view(start@.take(i as int)), runs_view(end@), from_start as int, distance as int),
        decreases start@.len() - i,
    {
        let ghost t = start@.take(i + 1);
        assert(runs_view(t).drop_last() == runs_view(start@.take(i as int)));
        assert(runs_view(t).last() == run_view(start@[i as int]));
        assert(start@[i as int].stats.wf());
        match find_run_exec(end, &start[i]) {
            Some(j) => {
                proof { lemma_find_run(runs_view(end@), view_key(run_view(start@[i as int]))); }
                assert(find_run(runs_view(end@), view_key(run_view(start@[i as int]))) == Some(j as int));
                assert(end@[j as int].stats.wf());
                let run = interpolate_run(&start[i], &end[j], from_start, distance);
                let ghost before = r@;
                r.push(run);
                assert(runs_view(r@) == runs_view(before).push(run_view(run)));
                assert(runs_view(end@)[j as int] == run_view(end@[j as int]));
                assert(runs_view(r@) == interp_runs(runs_view(t), runs_view(end@), from_start as int, distance as int));
                assert(all_wf(r@)) by {
                    assert forall|m: int| 0 <= m < r@.len() implies (#[trigger] r@[m]).stats.wf() by {
                        if m < before.len() { assert(r@[m] == before[m]); }
                    }
                }
            },
            None => {
                assert(runs_view(r@) == interp_runs(runs_view(t), runs_view(end@), from_start as int, distance as int));
            },
        }
        i += 1;
    }
    assert(start@.take(start@.len() as int) == start@);
    r
}

} // verus!
