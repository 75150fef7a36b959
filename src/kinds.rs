//! Build kinds, run kinds, and their selection from a comma-separated list.
use vstd::prelude::*;
use crate::text::{chars_of, split_chars, split_spec, string_of};

verus! {

/// The cargo profile a benchmark is built with.
#[derive(Clone, Copy, Debug, PartialEq, Eq, Hash, Structural)]
pub enum BuildKind {
    Check,
    Debug,
    Opt,
}

/// Whether incremental state is reused and whether a patch is applied first.
#[derive(Clone, Copy, Debug, PartialEq, Eq, Hash, Structural)]
pub enum RunKind {
    Full,
    IncrFull,
    IncrUnchanged,
    IncrPatched,
}

impl RunKind {
    /// Every run kind, in execution order.
    pub fn all() -> (r: Vec<RunKind>)
        ensures
            r@ == seq![RunKind::Full, RunKind::IncrFull, RunKind::IncrUnchanged, RunKind::IncrPatched],
    {
        vec![RunKind::Full, RunKind::IncrFull, RunKind::IncrUnchanged, RunKind::IncrPatched]
    }

    /// The run kinds that need no incremental compilation.
    pub fn all_non_incr() -> (r: Vec<RunKind>)
        ensures
            r@ == seq![RunKind::Full],
    {
        vec![RunKind::Full]
    }
}

/// A name in a kind list that is neither a known kind nor `All`.
#[derive(Clone, Debug, PartialEq, Eq)]
pub enum KindError {
    UnknownKind(&'static str, String),
}

/// Whether `p` names an entry of the table or is `All`.
pub open spec fn kind_name_known<K>(table: Seq<(Seq<char>, K)>, p: Seq<char>) -> bool {
    p == "All"@ || exists|j: int| 0 <= j < table.len() && table[j].0 == p
}

/// The first piece that names no entry of the table, if any.
pub open spec fn first_unknown<K>(table: Seq<(Seq<char>, K)>, pieces: Seq<Seq<char>>) -> Option<Seq<char>>
    decreases pieces.len(),
{
    if pieces.len() == 0 {
        None
    } else if !kind_name_known(table, pieces[0]) {
        Some(pieces[0])
    } else {
        first_unknown(table, pieces.drop_first())
    }
}

/// Whether the entry named `name` is requested by the pieces.
pub open spec fn kind_requested(name: Seq<char>, pieces: Seq<Seq<char>>) -> bool {
    pieces.contains(name) || pieces.contains("All"@)
}

/// The requested kinds, in table order, each once.
pub open spec fn requested_kinds<K>(table: Seq<(Seq<char>, K)>, pieces: Seq<Seq<char>>) -> Seq<K>
    decreases table.len(),
{
    if table.len() == 0 {
        Seq::empty()
    } else {
        let init = requested_kinds(table.drop_last(), pieces);
        if kind_requested(table.last().0, pieces) {
            init.push(table.last().1)
        } else {
            init
        }
    }
}

/// What a kind list selects from a table: the requested kinds, or the first
/// unknown name.
pub open spec fn kinds_spec<K>(table: Seq<(Seq<char>, K)>, arg: Seq<char>) -> Result<Seq<K>, Seq<char>> {
    let pieces = split_spec(arg, ',');
    match first_unknown(table, pieces) {
        Some(p) => Err(p),
        None => Ok(requested_kinds(table, pieces)),
    }
}

pub open spec fn table_view<K>(t: Seq<(&'static str, K)>) -> Seq<(Seq<char>, K)> {
    t.map_values(|e: (&'static str, K)| (e.0@, e.1))
}

pub open spec fn build_kind_table() -> Seq<(Seq<char>, BuildKind)> {
    seq![("Check"@, BuildKind::Check), ("Debug"@, BuildKind::Debug), ("Opt"@, BuildKind::Opt)]
}

pub open spec fn run_kind_table() -> Seq<(Seq<char>, RunKind)> {
    seq![
        ("Full"@, RunKind::Full),
        ("IncrFull"@, RunKind::IncrFull),
        ("IncrUnchanged"@, RunKind::IncrUnchanged),
        ("IncrPatched"@, RunKind::IncrPatched),
    ]
}

/// Whether the result of a kind selection matches `kinds_spec`.
pub open spec fn kinds_result_matches<K>(r: Result<Vec<K>, KindError>, table: Seq<(Seq<char>, K)>, arg: Seq<char>) -> bool {
    match (r, kinds_spec(table, arg)) {
        (Ok(v), Ok(ks)) => v@ == ks,
        (Err(KindError::UnknownKind(label, s)), Err(p)) => label@ == "build"@ && s@ == p,
        _ => false,
    }
}

fn piece_in_table<K: Copy>(table: &[(&'static str, K)], p: &[char]) -> (r: bool)
    ensures
        r == exists|j: int| 0 <= j < table@.len() && table@[j].0@ == p@,
{
    let mut j: usize = 0;
    while j < table.len()
        invariant
            j <= table@.len(),
            forall|k: int| 0 <= k < j ==> table@[k].0@ != p@,
        decreases table@.len() - j,
    {
        let name = chars_of(table[j].0);
        if crate::text::chars_eq(name.as_slice(), p) {
            return true;
        }
        j += 1;
    }
    false
}

fn contains_piece(pieces: &Vec<Vec<char>>, name: &str) -> (r: bool)
    ensures
        r == pieces@.map_values(|p: Vec<char>| p@).contains(name@),
{
    let ghost pv = pieces@.map_values(|p: Vec<char>| p@);
    let target = chars_of(name);
    let mut i: usize = 0;
    while i < pieces.len()
        invariant
            i <= pieces@.len(),
            pv == pieces@.map_values(|p: Vec<char>| p@),
            target@ == name@,
            forall|k: int| 0 <= k < i ==> pv[k] != name@,
        decreases pieces@.len() - i,
    {
        if crate::text::chars_eq(pieces[i].as_slice(), target.as_slice()) {
            assert(pv[i as int] == name@);
            assert(pv.contains(name@));
            return true;
        }
        i += 1;
    }
    false
}

/// Converts a comma-separated list of kind names to the kinds it names, in
/// table order and without duplicates; `All` names every kind.
fn kinds_from_arg<K: Copy>(strings_and_kinds: &[(&'static str, K)], arg: &str) -> (r: Result<Vec<K>, KindError>)
    ensures
        kinds_result_matches(r, table_view(strings_and_kinds@), arg@),
{
    let ghost table = table_view(strings_and_kinds@);
    let chars = chars_of(arg);
    let pieces = split_chars(chars.as_slice(), ',');
    let ghost pv = pieces@.map_values(|p: Vec<char>| p@);
    let mut i: usize = 0;
    assert(pv.skip(0) == pv);
    while i < pieces.len()
        invariant
            i <= pieces@.len(),
            pv == pieces@.map_values(|p: Vec<char>| p@),
            pv == split_spec(arg@, ','),
            table == table_view(strings_and_kinds@),
            first_unknown(table, pv) == first_unknown(table, pv.skip(i as int)),
        decreases pieces@.len() - i,
    {
        let known = piece_in_table(strings_and_kinds, pieces[i].as_slice())
            || str_eq_chars_all(pieces[i].as_slice());
        assert(pv.skip(i as int)[0] == pv[i as int]);
        assert(known == kind_name_known(table, pv[i as int])) by {
            if known && pv[i as int] != "All"@ {
                let j = choose|j: int| 0 <= j < strings_and_kinds@.len() && strings_and_kinds@[j].0@ == pv[i as int];
                assert(table[j].0 == pv[i as int]);
            }
            if kind_name_known(table, pv[i as int]) && pv[i as int] != "All"@ {
                let j = choose|j: int| 0 <= j < table.len() && table[j].0 == pv[i as int];
                assert(strings_and_kinds@[j].0@ == pv[i as int]);
            }
        }
        if !known {
            return Err(KindError::UnknownKind("build", string_of(pieces[i].as_slice())));
        }
        assert(pv.skip(i as int).drop_first() == pv.skip(i + 1));
        i += 1;
    }
    assert(first_unknown(table, pv.skip(pv.len() as int)) is None);
    let all = contains_piece(&pieces, "All");
    let mut v: Vec<K> = Vec::new();
    let mut j: usize = 0;
    while j < strings_and_kinds.len()
        invariant
            j <= strings_and_kinds@.len(),
            table == table_view(strings_and_kinds@),
            pv == pieces@.map_values(|p: Vec<char>| p@),
            all == pv.contains("All"@),
            v@ == requested_kinds(table.take(j as int), pv),
        decreases strings_and_kinds@.len() - j,
    {
        assert(table.take(j + 1).drop_last() == table.take(j as int));
        if all || contains_piece(&pieces, strings_and_kinds[j].0) {
            v.push(strings_and_kinds[j].1);
        }
        j += 1;
    }
    assert(table.take(table.len() as int) == table);
    Ok(v)
}

fn str_eq_chars_all(p: &[char]) -> (r: bool)
    ensures
        r == (p@ == "All"@),
{
    let all = chars_of("All");
    crate::text::chars_eq(p, all.as_slice())
}

/// The build kinds named by an argument list; all of them when there is none.
pub fn build_kinds_from_arg(arg: &Option<&str>) -> (r: Result<Vec<BuildKind>, KindError>)
    ensures
        arg.is_none() ==> (r matches Ok(v) && v@ == seq![BuildKind::Check, BuildKind::Debug, BuildKind::Opt]),
        arg.is_some() ==> kinds_result_matches(r, build_kind_table(), arg.unwrap()@),
{
    if let Some(arg) = arg {
        let table = vec![("Check", BuildKind::Check), ("Debug", BuildKind::Debug), ("Opt", BuildKind::Opt)];
        assert(table_view(table@) == build_kind_table());
        kinds_from_arg(table.as_slice(), arg)
    } else {
        Ok(vec![BuildKind::Check, BuildKind::Debug, BuildKind::Opt])
    }
}

/// The run kinds named by an argument list; all of them when there is none.
pub fn run_kinds_from_arg(arg: &Option<&str>) -> (r: Result<Vec<RunKind>, KindError>)
    ensures
        arg.is_none() ==> (r matches Ok(v) && v@ == seq![RunKind::Full, RunKind::IncrFull, RunKind::IncrUnchanged, RunKind::IncrPatched]),
        arg.is_some() ==> kinds_result_matches(r, run_kind_table(), arg.unwrap()@),
{
    if let Some(arg) = arg {
        let table = vec![
            ("Full", RunKind::Full),
            ("IncrFull", RunKind::IncrFull),
            ("IncrUnchanged", RunKind::IncrUnchanged),
            ("IncrPatched", RunKind::IncrPatched),
        ];
        assert(table_view(table@) == run_kind_table());
        kinds_from_arg(table.as_slice(), arg)
    } else {
        Ok(RunKind::all())
    }
}

} // verus!
