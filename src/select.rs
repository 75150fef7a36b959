//! Which directories of the benchmark collection are measured.
use vstd::prelude::*;
use crate::text::{chars_of, split_chars, split_spec, str_eq};

verus! {

/// Whether `pat` occurs in `s`.
pub open spec fn occurs(s: Seq<char>, pat: Seq<char>) -> bool {
    exists|i: int| 0 <= i && i + pat.len() <= s.len() && #[trigger] s.subrange(i, i + pat.len()) == pat
}

fn occurs_at(s: &[char], pat: &[char], i: usize) -> (r: bool)
    requires
        i + pat@.len() <= s@.len(),
    ensures
        r == (s@.subrange(i as int, i + pat@.len()) == pat@),
{
    let n = s.len();
    let mut k: usize = 0;
    while k < pat.len()
        invariant
            n == s@.len(),
            i + pat@.len() <= s@.len(),
            k <= pat@.len(),
            forall|m: int| 0 <= m < k ==> s@[i + m] == pat@[m],
        decreases pat@.len() - k,
    {
        if s[i + k] != pat[k] {
            assert(s@.subrange(i as int, i + pat@.len())[k as int] != pat@[k as int]);
            return false;
        }
        k += 1;
    }
    assert(s@.subrange(i as int, i + pat@.len()) =~= pat@);
    true
}

/// Whether `pat` occurs in `s` (`str::contains`).
pub fn contains_chars(s: &[char], pat: &[char]) -> (r: bool)
    ensures
        r == occurs(s@, pat@),
{
    if pat.len() > s.len() {
        return false;
    }
    let last = s.len() - pat.len();
    let mut i: usize = 0;
    loop
        invariant
            pat@.len() <= s@.len(),
            last == s@.len() - pat@.len(),
            i <= last,
            forall|j: int| 0 <= j < i ==> #[trigger] s@.subrange(j, j + pat@.len()) != pat@,
        ensures
            pat@.len() <= s@.len(),
            last == s@.len() - pat@.len(),
            forall|j: int| 0 <= j <= last ==> #[trigger] s@.subrange(j, j + pat@.len()) != pat@,
        decreases last - i,
    {
        if occurs_at(s, pat, i) {
            return true;
        }
        if i == last {
            break;
        }
        i += 1;
    }
    proof {
        if occurs(s@, pat@) {
            let j = choose|j: int| 0 <= j && j + pat@.len() <= s@.len() && #[trigger] s@.subrange(j, j + pat@.len()) == pat@;
            assert(j <= last);
        }
    }
    false
}

/// Directories of the collection that hold no benchmark.
pub open spec fn ignored_dir(name: Seq<char>) -> bool {
    name == ".git"@ || name == "scripts"@ || name == "native-tls-0.1.5"@ || name == "native-tls-0.2.3"@
        || name == "rust-mozjs"@
}

/// Whether one of the comma-separated names of `e` occurs in `name`.
pub open spec fn excluded_by(name: Seq<char>, e: Seq<char>) -> bool {
    exists|k: int| 0 <= k < split_spec(e, ',').len() && occurs(name, #[trigger] split_spec(e, ',')[k])
}

/// Whether the directory entry `name` is a benchmark to measure: a
/// directory, not one of the ignored ones, containing `filter` if given, and
/// containing none of the comma-separated `exclude` names if given.
pub open spec fn selected_spec(name: Seq<char>, is_dir: bool, filter: Option<Seq<char>>, exclude: Option<Seq<char>>) -> bool {
    &&& is_dir
    &&& !ignored_dir(name)
    &&& match filter {
        Some(f) => occurs(name, f),
        None => true,
    }
    &&& match exclude {
        Some(e) => !excluded_by(name, e),
        None => true,
    }
}

pub open spec fn opt_str_view(o: Option<&str>) -> Option<Seq<char>> {
    match o {
        Some(s) => Some(s@),
        None => None,
    }
}

pub fn benchmark_selected(name: &str, is_dir: bool, filter: Option<&str>, exclude: Option<&str>) -> (r: bool)
    ensures
        r == selected_spec(name@, is_dir, opt_str_view(filter), opt_str_view(exclude)),
{
    if !is_dir {
        return false;
    }
    if str_eq(name, ".git") || str_eq(name, "scripts") || str_eq(name, "native-tls-0.1.5")
        || str_eq(name, "native-tls-0.2.3") || str_eq(name, "rust-mozjs") {
        return false;
    }
    let n = chars_of(name);
    match filter {
        Some(f) => {
            let fc = chars_of(f);
            if !contains_chars(n.as_slice(), fc.as_slice()) {
                return false;
            }
        },
        None => {},
    }
    match exclude {
        Some(e) => {
            let ec = chars_of(e);
            let pieces = split_chars(ec.as_slice(), ',');
            let ghost pv = pieces@.map_values(|p: Vec<char>| p@);
            let mut k: usize = 0;
            while k < pieces.len()
                invariant
                    k <= pieces@.len(),
                    n@ == name@,
                    opt_str_view(exclude) == Some(e@),
                    pv == pieces@.map_values(|p: Vec<char>| p@),
                    pv == split_spec(e@, ','),
                    forall|m: int| 0 <= m < k ==> !occurs(name@, #[trigger] split_spec(e@, ',')[m]),
                decreases pieces@.len() - k,
            {
                assert(pv[k as int] == pieces@[k as int]@);
                if contains_chars(n.as_slice(), pieces[k].as_slice()) {
                    assert(occurs(name@, split_spec(e@, ',')[k as int]));
                    assert(excluded_by(name@, e@));
                    return false;
                }
                k += 1;
            }
        },
        None => {},
    }
    true
}

} // verus!
