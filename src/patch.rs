//! Source patches, the state a benchmark is measured in, and run identities.
use vstd::prelude::*;
use crate::perf_stat::{all_digits, digits_value, lemma_digits_nonneg, parse_digits};
use crate::text::{chars_of, lemma_split_nonempty, split_spec, starts_with, string_of};

verus! {

/// A named source change applied before a patched incremental run. Patches
/// are equal when their names are: the index and the file only order them.
#[derive(Debug)]
pub struct Patch {
    pub index: usize,
    pub name: String,
    pub path: String,
}

impl Clone for Patch {
    fn clone(&self) -> (r: Self)
        ensures
            r == *self,
    {
        Patch { index: self.index, name: self.name.clone(), path: self.path.clone() }
    }
}

impl PartialEq for Patch {
    fn eq(&self, other: &Patch) -> (r: bool) {
        self.name == other.name
    }
}

impl vstd::std_specs::cmp::PartialEqSpecImpl for Patch {
    open spec fn obeys_eq_spec() -> bool {
        true
    }

    open spec fn eq_spec(&self, other: &Patch) -> bool {
        self.name@ == other.name@
    }
}

impl Eq for Patch {}

/// A patch file name: a decimal index that fits a `usize`, a `-`, and the rest.
pub open spec fn is_patch_file_name(f: Seq<char>) -> bool {
    let parts = split_spec(f, '-');
    &&& parts.len() >= 2
    &&& parts[0].len() > 0
    &&& all_digits(parts[0])
    &&& digits_value(parts[0]) <= usize::MAX
}

/// `s` with every non-overlapping occurrence of `pat`, found left to right,
/// removed (`str::replace(pat, "")`).
pub open spec fn remove_all(s: Seq<char>, pat: Seq<char>) -> Seq<char>
    decreases s.len(),
{
    if s.len() == 0 {
        s
    } else if pat.len() > 0 && pat.len() <= s.len() && s.take(pat.len() as int) == pat {
        remove_all(s.skip(pat.len() as int), pat)
    } else {
        seq![s[0]] + remove_all(s.drop_first(), pat)
    }
}

/// The name of the patch in file `f`: what follows the first `-`, each
/// further `-` read as a space, with every `.patch` removed.
pub open spec fn patch_name_of(f: Seq<char>) -> Seq<char> {
    let rest = f.skip(split_spec(f, '-')[0].len() as int + 1);
    remove_all(rest.map_values(|c: char| if c == '-' { ' ' } else { c }), ".patch"@)
}

pub open spec fn patch_index_of(f: Seq<char>) -> int {
    digits_value(split_spec(f, '-')[0])
}

proof fn lemma_split_first(s: Seq<char>, sep: char)
    ensures
        split_spec(s, sep).len() >= 1,
        split_spec(s, sep)[0].len() <= s.len(),
        s.take(split_spec(s, sep)[0].len() as int) == split_spec(s, sep)[0],
        forall|k: int| 0 <= k < split_spec(s, sep)[0].len() ==> s[k] != sep,
        split_spec(s, sep).len() >= 2 ==> split_spec(s, sep)[0].len() < s.len() && s[split_spec(
            s,
            sep,
        )[0].len() as int] == sep,
        split_spec(s, sep).len() == 1 ==> split_spec(s, sep)[0] == s,
    decreases s.len(),
{
    lemma_split_nonempty(s, sep);
    if s.len() > 0 {
        lemma_split_first(s.drop_last(), sep);
        lemma_split_nonempty(s.drop_last(), sep);
        let init = split_spec(s.drop_last(), sep);
        assert forall|k: int| 0 <= k < s.len() - 1 implies s[k] == s.drop_last()[k] by {}
        if init.len() == 1 {
            if s.last() != sep {
                assert(split_spec(s, sep)[0] == init[0].push(s.last()));
                assert(s.take(s.len() as int) == s);
                assert(init[0] == s.drop_last());
                assert(init[0].push(s.last()) == s);
            } else {
                assert(split_spec(s, sep)[0] == init[0]);
                assert(s.take(init[0].len() as int) == s.drop_last().take(init[0].len() as int));
            }
        } else {
            assert(split_spec(s, sep)[0] == init[0]);
            assert(s.take(init[0].len() as int) == s.drop_last().take(init[0].len() as int));
            assert(s[init[0].len() as int] == s.drop_last()[init[0].len() as int]);
        }
    }
}

impl Patch {
    /// The patch in the file named `file_name`, such as `0-println.patch`.
    pub fn new(file_name: &str) -> (r: Patch)
        requires
            is_patch_file_name(file_name@),
        ensures
            r.index == patch_index_of(file_name@),
            r.name@ == patch_name_of(file_name@),
            r.path@ == file_name@,
    {
        let f = chars_of(file_name);
        let ghost parts = split_spec(f@, '-');
        proof { lemma_split_first(f@, '-'); }
        let mut k: usize = 0;
        while k < f.len() && f[k] != '-'
            invariant
                f@ == file_name@,
                parts == split_spec(f@, '-'),
                parts.len() >= 2,
                k <= parts[0].len(),
                parts[0].len() < f@.len(),
                f@[parts[0].len() as int] == '-',
                forall|j: int| 0 <= j < parts[0].len() ==> f@[j] != '-',
            decreases parts[0].len() - k,
        {
            k += 1;
        }
        let digits = crate::text::prefix_to(f.as_slice(), k);
        assert(k == parts[0].len());
        assert(digits@ == parts[0]);
        assert(usize::MAX <= u128::MAX);
        proof { lemma_digits_nonneg(digits@); }
        let index = match parse_digits(digits.as_slice()) {
            Some(v) => v as usize,
            None => 0,
        };
        let mut spaced: Vec<char> = Vec::new();
        let mut i: usize = k + 1;
        let ghost rest = f@.skip(k + 1);
        while i < f.len()
            invariant
                f@ == file_name@,
                k + 1 <= i <= f@.len(),
                rest == f@.skip(k + 1),
                spaced@ == rest.take(i - k - 1).map_values(|c: char| if c == '-' { ' ' } else { c }),
            decreases f@.len() - i,
        {
            let c = f[i];
            spaced.push(if c == '-' { ' ' } else { c });
            assert(rest.take(i + 1 - k - 1) == rest.take(i - k - 1).push(c));
            i += 1;
        }
        assert(rest.take(rest.len() as int) == rest);
        let name = remove_pattern(spaced.as_slice(), ".patch");
        Patch { index, name: string_of(name.as_slice()), path: string_of(f.as_slice()) }
    }
}

/// Whether a patch file name can be read as one.
pub fn is_patch_file(file_name: &str) -> (r: bool)
    ensures
        r == is_patch_file_name(file_name@),
{
    let f = chars_of(file_name);
    let ghost parts = split_spec(f@, '-');
    proof { lemma_split_first(f@, '-'); }
    let mut k: usize = 0;
    while k < f.len() && f[k] != '-'
        invariant
            f@ == file_name@,
            parts == split_spec(f@, '-'),
            parts.len() >= 1,
            k <= parts[0].len(),
            forall|j: int| 0 <= j < parts[0].len() ==> f@[j] != '-',
            parts.len() >= 2 ==> parts[0].len() < f@.len() && f@[parts[0].len() as int] == '-',
            parts.len() == 1 ==> parts[0] == f@,
        decreases parts[0].len() - k,
    {
        k += 1;
    }
    if k == f.len() {
        assert(parts.len() == 1);
        return false;
    }
    assert(parts.len() >= 2);
    let digits = crate::text::prefix_to(f.as_slice(), k);
    assert(digits@ == parts[0]);
    if k == 0 {
        return false;
    }
    assert(usize::MAX <= u128::MAX);
    proof { lemma_digits_nonneg(digits@); }
    match parse_digits(digits.as_slice()) {
        Some(v) => v <= usize::MAX as u128,
        None => false,
    }
}

/// Removes every occurrence of `pat` from `s`, as `remove_all` does.
fn remove_pattern(s: &[char], pat: &str) -> (r: Vec<char>)
    ensures
        r@ == remove_all(s@, pat@),
{
    let p = chars_of(pat);
    let mut r: Vec<char> = Vec::new();
    let mut i: usize = 0;
    assert(s@.skip(0) == s@);
    assert(r@ + remove_all(s@, pat@) == remove_all(s@, pat@));
    while i < s.len()
        invariant
            i <= s@.len(),
            p@ == pat@,
            r@ + remove_all(s@.skip(i as int), pat@) == remove_all(s@, pat@),
        decreases s@.len() - i,
    {
        let ghost t = s@.skip(i as int);
        let tail = crate::text::suffix_from(s, i);
        if p.len() > 0 && starts_with(tail.as_slice(), p.as_slice()) {
            assert(t.skip(p@.len() as int) == s@.skip(i + p@.len()));
            i += p.len();
        } else {
            r.push(s[i]);
            assert(t.drop_first() == s@.skip(i + 1));
            assert(r@ + remove_all(s@.skip(i + 1), pat@) == remove_all(s@, pat@)) by {
                assert(seq![s@[i as int]] + remove_all(t.drop_first(), pat@) == remove_all(t, pat@));
                assert(r@ == r@.drop_last().push(s@[i as int]));
                assert(r@.drop_last() + (seq![s@[i as int]] + remove_all(t.drop_first(), pat@)) == r@ + remove_all(t.drop_first(), pat@));
            }
            i += 1;
        }
    }
    assert(remove_all(s@.skip(s@.len() as int), pat@) == Seq::<char>::empty());
    assert(r@ + Seq::<char>::empty() == r@);
    r
}

} // verus!
