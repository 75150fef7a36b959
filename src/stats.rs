//! The statistics of one execution: a map from statistic name to measurement.
//!
//! A measurement is a non-negative decimal held in fixed point with nine
//! fractional digits: `1.5` is held as `1_500_000_000`.
use vstd::prelude::*;

verus! {

/// The fixed-point scale of a measurement: one unit is `1 / NANOS_PER_UNIT`.
pub const NANOS_PER_UNIT: u128 = 1_000_000_000;

/// The map that a list of distinct-named entries stands for.
pub open spec fn map_of(entries: Seq<(String, u128)>) -> Map<Seq<char>, u128>
    decreases entries.len(),
{
    if entries.len() == 0 {
        Map::empty()
    } else {
        map_of(entries.drop_last()).insert(entries.last().0@, entries.last().1)
    }
}

/// No two entries share a name.
pub open spec fn names_distinct(entries: Seq<(String, u128)>) -> bool {
    forall|i: int, j: int|
        0 <= i < entries.len() && 0 <= j < entries.len() && i != j ==> #[trigger] entries[i].0@
            != #[trigger] entries[j].0@
}

proof fn lemma_map_of(entries: Seq<(String, u128)>)
    requires
        names_distinct(entries),
    ensures
        forall|k: Seq<char>| #[trigger]
            map_of(entries).contains_key(k) <==> exists|i: int|
                0 <= i < entries.len() && entries[i].0@ == k,
        forall|i: int| 0 <= i < entries.len() ==> #[trigger] map_of(entries)[entries[i].0@] == entries[i].1,
    decreases entries.len(),
{
    if entries.len() > 0 {
        let init = entries.drop_last();
        assert(names_distinct(init)) by {
            assert forall|i: int, j: int|
                0 <= i < init.len() && 0 <= j < init.len() && i != j implies #[trigger] init[i].0@
                != #[trigger] init[j].0@ by {
                assert(init[i] == entries[i] && init[j] == entries[j]);
            }
        }
        lemma_map_of(init);
        assert(map_of(entries) == map_of(init).insert(entries.last().0@, entries.last().1));
        assert forall|k: Seq<char>| #[trigger]
            map_of(entries).contains_key(k) <==> exists|i: int|
                0 <= i < entries.len() && entries[i].0@ == k by {
            if map_of(entries).contains_key(k) && k != entries.last().0@ {
                assert(map_of(init).contains_key(k));
                let i = choose|i: int| 0 <= i < init.len() && init[i].0@ == k;
                assert(entries[i] == init[i]);
            }
            if exists|i: int| 0 <= i < entries.len() && entries[i].0@ == k {
                let i = choose|i: int| 0 <= i < entries.len() && entries[i].0@ == k;
                if i < init.len() {
                    assert(init[i] == entries[i]);
                }
            }
        }
        assert forall|i: int| 0 <= i < entries.len() implies #[trigger] map_of(entries)[entries[i].0@]
            == entries[i].1 by {
            if i < init.len() {
                assert(init[i] == entries[i]);
                assert(entries[i].0@ != entries[entries.len() - 1].0@);
            }
        }
    }
}

/// The statistics of one execution, or the sum of several.
#[derive(Debug)]
pub struct Stats {
    entries: Vec<(String, u128)>,
}

impl Clone for Stats {
    fn clone(&self) -> (r: Self)
        ensures
            r@ == self@,
            r.wf() == self.wf(),
    {
        let mut entries: Vec<(String, u128)> = Vec::new();
        let mut i: usize = 0;
        while i < self.entries.len()
            invariant
                i <= self.entries@.len(),
                entries@ == self.entries@.take(i as int),
            decreases self.entries@.len() - i,
        {
            let name = self.entries[i].0.clone();
            entries.push((name, self.entries[i].1));
            assert(self.entries@.take(i + 1) == self.entries@.take(i as int).push(self.entries@[i as int]));
            i += 1;
        }
        assert(self.entries@.take(self.entries@.len() as int) == self.entries@);
        Stats { entries }
    }
}

impl Stats {
    pub closed spec fn wf(&self) -> bool {
        names_distinct(self.entries@)
    }

    pub closed spec fn view(&self) -> Map<Seq<char>, u128> {
        map_of(self.entries@)
    }

    /// No statistics: the state of a failed measurement.
    pub fn new() -> (r: Stats)
        ensures
            r.wf(),
            r@ == Map::<Seq<char>, u128>::empty(),
    {
        Stats { entries: Vec::new() }
    }

    pub fn is_empty(&self) -> (r: bool)
        requires
            self.wf(),
        ensures
            r == (self@.dom().len() == 0),
    {
        proof { lemma_dom_len(self.entries@); }
        self.entries.len() == 0
    }

    /// The number of statistics held.
    pub fn len(&self) -> (r: usize)
        requires
            self.wf(),
        ensures
            r == self@.dom().len(),
    {
        proof { self.lemma_len(); }
        self.entries.len()
    }

    /// A well-formed statistics map is finite.
    pub proof fn lemma_finite(&self)
        requires
            self.wf(),
        ensures
            self@.dom().finite(),
    {
        lemma_dom_len(self.entries@);
    }

    proof fn lemma_len(&self)
        requires
            self.wf(),
        ensures
            self@.dom().len() == self.entries@.len(),
            self@.dom().finite(),
    {
        lemma_dom_len(self.entries@);
    }

    fn find(&self, name: &String) -> (r: Option<usize>)
        requires
            self.wf(),
        ensures
            match r {
                Some(i) => i < self.entries@.len() && self.entries@[i as int].0@ == name@,
                None => !self@.contains_key(name@),
            },
    {
        proof { lemma_map_of(self.entries@); }
        let mut i: usize = 0;
        while i < self.entries.len()
            invariant
                i <= self.entries@.len(),
                forall|k: int| 0 <= k < i ==> self.entries@[k].0@ != name@,
            decreases self.entries@.len() - i,
        {
            if self.entries[i].0 == *name {
                return Some(i);
            }
            i += 1;
        }
        None
    }

    /// The measurement of the statistic `name`, if there is one.
    pub fn get(&self, name: &String) -> (r: Option<u128>)
        requires
            self.wf(),
        ensures
            r == (if self@.contains_key(name@) { Some(self@[name@]) } else { None::<u128> }),
    {
        proof { lemma_map_of(self.entries@); }
        match self.find(name) {
            Some(i) => Some(self.entries[i].1),
            None => None,
        }
    }

    /// Sets the measurement of `name` to `value`, replacing any earlier one.
    pub fn insert(&mut self, name: String, value: u128)
        requires
            old(self).wf(),
        ensures
            final(self).wf(),
            final(self)@ == old(self)@.insert(name@, value),
    {
        proof { lemma_map_of(self.entries@); }
        match self.find(&name) {
            Some(i) => {
                let ghost before = self.entries@;
                self.entries.set(i, (name, value));
                proof {
                    lemma_map_of(self.entries@);
                    assert(names_distinct(self.entries@)) by {
                        assert forall|a: int, b: int|
                            0 <= a < self.entries@.len() && 0 <= b < self.entries@.len() && a != b
                            implies #[trigger] self.entries@[a].0@ != #[trigger] self.entries@[b].0@ by {
                            assert(before[a].0@ != before[b].0@);
                        }
                    }
                    lemma_map_of(self.entries@);
                    assert(self@ =~= map_of(before).insert(name@, value)) by {
                        lemma_map_of(before);
                        assert forall|k: Seq<char>| #[trigger] self@.contains_key(k) implies map_of(before).insert(name@, value).contains_key(k) by {
                            let j = choose|j: int| 0 <= j < self.entries@.len() && self.entries@[j].0@ == k;
                            if j != i { assert(before[j] == self.entries@[j]); }
                        }
                        assert forall|k: Seq<char>| #[trigger] map_of(before).insert(name@, value).contains_key(k) implies self@.contains_key(k) by {
                            if k == name@ {
                                assert(self.entries@[i as int].0@ == name@);
                            } else {
                                let j = choose|j: int| 0 <= j < before.len() && before[j].0@ == k;
                                assert(before[j] == self.entries@[j]);
                            }
                        }
                        assert forall|k: Seq<char>| #[trigger] self@.contains_key(k) implies self@[k] == map_of(before).insert(name@, value)[k] by {
                            let j = choose|j: int| 0 <= j < self.entries@.len() && self.entries@[j].0@ == k;
                            if j != i { assert(before[j] == self.entries@[j]); }
                        }
                    }
                }
            },
            None => {
                let ghost before = self.entries@;
                self.entries.push((name, value));
                proof {
                    assert(self.entries@.drop_last() == before);
                    assert(names_distinct(self.entries@)) by {
                        assert forall|a: int, b: int|
                            0 <= a < self.entries@.len() && 0 <= b < self.entries@.len() && a != b
                            implies #[trigger] self.entries@[a].0@ != #[trigger] self.entries@[b].0@ by {
                            if a < before.len() && b < before.len() {
                                assert(before[a].0@ != before[b].0@);
                            } else if a < before.len() {
                                assert(map_of(before).contains_key(before[a].0@));
                            } else {
                                assert(map_of(before).contains_key(before[b].0@));
                            }
                        }
                    }
                }
            },
        }
    }

    /// Adds the measurements of `other` into `self`, name by name; a name
    /// missing on one side counts as zero. Sums saturate at `u128::MAX`.
    pub fn combine_with(&mut self, other: Stats)
        requires
            old(self).wf(),
            other.wf(),
        ensures
            final(self).wf(),
            final(self)@ == combined(old(self)@, other@),
    {
        let ghost start = self@;
        proof { lemma_map_of(other.entries@); }
        let mut i: usize = 0;
        while i < other.entries.len()
            invariant
                self.wf(),
                other.wf(),
                i <= other.entries@.len(),
                self@ == combined(start, map_of(other.entries@.take(i as int))),
            decreases other.entries@.len() - i,
        {
            let name = other.entries[i].0.clone();
            let value = other.entries[i].1;
            let cur = self.get(&name);
            let sum = match cur {
                Some(c) => c.saturating_add(value),
                None => value,
            };
            self.insert(name, sum);
            proof {
                let t = other.entries@.take(i + 1);
                let p = other.entries@.take(i as int);
                assert(t.drop_last() == p);
                assert(t.last() == other.entries@[i as int]);
                assert(map_of(t) == map_of(p).insert(name@, value));
                assert(names_distinct(p)) by {
                    assert forall|a: int, b: int|
                        0 <= a < p.len() && 0 <= b < p.len() && a != b implies #[trigger] p[a].0@
                        != #[trigger] p[b].0@ by {
                        assert(p[a] == other.entries@[a] && p[b] == other.entries@[b]);
                    }
                }
                lemma_map_of(p);
                assert(!map_of(p).contains_key(name@)) by {
                    if map_of(p).contains_key(name@) {
                        let j = choose|j: int| 0 <= j < p.len() && p[j].0@ == name@;
                        assert(p[j] == other.entries@[j]);
                    }
                }
                assert(self@ =~= combined(start, map_of(t)));
            }
            i += 1;
        }
        assert(other.entries@.take(other.entries@.len() as int) == other.entries@);
    }

    /// Removes every statistic.
    pub fn clear(&mut self)
        ensures
            final(self).wf(),
            final(self)@ == Map::<Seq<char>, u128>::empty(),
    {
        self.entries.clear();
    }

    /// The statistics as name-value pairs, each name once.
    pub fn entries(&self) -> (r: &Vec<(String, u128)>)
        requires
            self.wf(),
        ensures
            names_distinct(r@),
            map_of(r@) == self@,
    {
        &self.entries
    }
}

proof fn lemma_dom_len(e: Seq<(String, u128)>)
    requires
        names_distinct(e),
    ensures
        map_of(e).dom().len() == e.len(),
        map_of(e).dom().finite(),
    decreases e.len(),
{
    if e.len() > 0 {
        let init = e.drop_last();
        assert(names_distinct(init)) by {
            assert forall|i: int, j: int|
                0 <= i < init.len() && 0 <= j < init.len() && i != j implies #[trigger] init[i].0@
                != #[trigger] init[j].0@ by {
                assert(init[i] == e[i] && init[j] == e[j]);
            }
        }
        lemma_dom_len(init);
        lemma_map_of(init);
        assert(!map_of(init).contains_key(e.last().0@)) by {
            if map_of(init).contains_key(e.last().0@) {
                let i = choose|i: int| 0 <= i < init.len() && init[i].0@ == e.last().0@;
                assert(e[i] == init[i]);
            }
        }
        assert(map_of(e).dom() == map_of(init).dom().insert(e.last().0@));
    } else {
        assert(map_of(e).dom() == Set::<Seq<char>>::empty());
    }
}

/// Two statistic maps added name by name, a missing name counting as zero,
/// sums saturating at `u128::MAX`.
pub open spec fn combined(a: Map<Seq<char>, u128>, b: Map<Seq<char>, u128>) -> Map<Seq<char>, u128> {
    Map::new(
        |k: Seq<char>| a.contains_key(k) || b.contains_key(k),
        |k: Seq<char>|
            if a.contains_key(k) && b.contains_key(k) {
                sat_add(a[k], b[k])
            } else if a.contains_key(k) {
                a[k]
            } else {
                b[k]
            },
    )
}

pub open spec fn sat_add(x: u128, y: u128) -> u128 {
    if x + y > u128::MAX { u128::MAX } else { (x + y) as u128 }
}

} // verus!
