//! Parsing of the counter-statistics output of one measured execution.
//!
//! Each statistic line has five `;`-separated fields: count, unit, name,
//! runtime and the percentage of the run for which the counter was active.
//! A line that starts with the self-profile marker carries a JSON payload.
use vstd::prelude::*;
use crate::stats::Stats;
use crate::text::{
    chars_eq, chars_of, lemma_split_nonempty, split_chars, split_spec, starts_with,
    starts_with_spec, string_of, suffix_from, trim, trim_spec,
};

verus! {

/// The raw self-profile payload of an execution: JSON text that the storage
/// side decodes.
#[derive(Debug)]
pub struct SelfProfile {
    pub json: String,
}

impl Clone for SelfProfile {
    fn clone(&self) -> (r: Self)
        ensures
            r == *self,
    {
        SelfProfile { json: self.json.clone() }
    }
}

/// Why an output yielded no statistics.
#[derive(Debug, PartialEq, Eq)]
pub enum DeserializeStatError {
    /// No statistic line at all; the execution may be repeated. Holds the output.
    NoOutput(String),
    /// A count that is not a decimal number. Holds the count.
    ParseError(String),
    /// A counter that was not active for the whole run. Holds the statistic
    /// name and the percentage.
    PartlyActive(String, String),
}

pub open spec fn is_digit(c: char) -> bool {
    '0' <= c && c <= '9'
}

pub open spec fn all_digits(s: Seq<char>) -> bool {
    forall|i: int| 0 <= i < s.len() ==> is_digit(#[trigger] s[i])
}

pub open spec fn digit_value(c: char) -> int {
    (c as u32) - ('0' as u32)
}

/// The value of a string of decimal digits.
pub open spec fn digits_value(s: Seq<char>) -> int
    decreases s.len(),
{
    if s.len() == 0 {
        0
    } else {
        10 * digits_value(s.drop_last()) + digit_value(s.last())
    }
}

/// The first nine fractional digits, padded with zeros.
pub open spec fn nine_digits(f: Seq<char>) -> Seq<char> {
    Seq::new(9, |i: int| if i < f.len() { f[i] } else { '0' })
}

/// A decimal `int[.frac]` in units of `10^-9`, digits past the ninth
/// fractional one dropped; `None` when `s` is no such decimal or the value
/// does not fit in a `u128`.
pub open spec fn decimal_spec(s: Seq<char>) -> Option<u128> {
    let parts = split_spec(s, '.');
    let int_part = parts[0];
    let frac = if parts.len() == 2 { parts[1] } else { Seq::<char>::empty() };
    let v = digits_value(int_part) * 1_000_000_000 + digits_value(nine_digits(frac));
    if parts.len() <= 2 && all_digits(int_part) && all_digits(frac) && int_part.len() + frac.len()
        > 0 && v <= u128::MAX {
        Some(v as u128)
    } else {
        None
    }
}

fn all_digit_chars(s: &[char]) -> (r: bool)
    ensures
        r == all_digits(s@),
{
    let mut i: usize = 0;
    while i < s.len()
        invariant
            i <= s@.len(),
            forall|k: int| 0 <= k < i ==> is_digit(#[trigger] s@[k]),
        decreases s@.len() - i,
    {
        if !('0' <= s[i] && s[i] <= '9') {
            return false;
        }
        i += 1;
    }
    true
}

/// Reads a string of decimal digits; `None` when it holds another character
/// or its value does not fit in a `u128`.
pub fn parse_digits(d: &[char]) -> (r: Option<u128>)
    ensures
        r == (if all_digits(d@) && digits_value(d@) <= u128::MAX {
            Some(digits_value(d@) as u128)
        } else {
            None::<u128>
        }),
{
    let mut acc: u128 = 0;
    let mut overflow = false;
    let mut i: usize = 0;
    while i < d.len()
        invariant
            i <= d@.len(),
            all_digits(d@.take(i as int)),
            overflow ==> digits_value(d@.take(i as int)) > u128::MAX,
            !overflow ==> acc == digits_value(d@.take(i as int)),
        decreases d@.len() - i,
    {
        let c = d[i];
        if !('0' <= c && c <= '9') {
            assert(!is_digit(d@[i as int]));
            return None;
        }
        let dv = (c as u32 - '0' as u32) as u128;
        assert(d@.take(i + 1).drop_last() == d@.take(i as int));
        if !overflow {
            match acc.checked_mul(10) {
                Some(m) => match m.checked_add(dv) {
                    Some(n) => {
                        acc = n;
                    },
                    None => {
                        overflow = true;
                    },
                },
                None => {
                    overflow = true;
                },
            }
        }
        assert(all_digits(d@.take(i + 1))) by {
            assert forall|k: int| 0 <= k < i + 1 implies is_digit(#[trigger] d@.take(i + 1)[k]) by {
                if k < i {
                    assert(d@.take(i + 1)[k] == d@.take(i as int)[k]);
                }
            }
        }
        i += 1;
    }
    assert(d@.take(d@.len() as int) == d@);
    if overflow {
        None
    } else {
        Some(acc)
    }
}

proof fn lemma_pow_step(acc: int, dv: int, p: int)
    requires
        0 <= acc < p,
        0 <= dv <= 9,
    ensures
        0 <= 10 * acc + dv < 10 * p,
{
    assert(10 * acc + dv < 10 * p) by (nonlinear_arith)
        requires
            0 <= acc < p,
            0 <= dv <= 9,
    ;
}

pub proof fn lemma_digits_nonneg(s: Seq<char>)
    ensures
        all_digits(s) ==> digits_value(s) >= 0,
    decreases s.len(),
{
    if s.len() > 0 {
        assert(all_digits(s) ==> all_digits(s.drop_last())) by {
            if all_digits(s) {
                assert forall|i: int| 0 <= i < s.drop_last().len() implies is_digit(#[trigger] s.drop_last()[i]) by {
                    assert(s.drop_last()[i] == s[i]);
                }
            }
        }
        lemma_digits_nonneg(s.drop_last());
        if all_digits(s) {
            assert(is_digit(s[s.len() - 1]));
        }
    }
}

/// The first nine fractional digits of `f`, as an integer.
fn parse_nine(f: &[char]) -> (r: u128)
    requires
        all_digits(f@),
    ensures
        r == digits_value(nine_digits(f@)),
        r < 1_000_000_000,
{
    let ghost nd = nine_digits(f@);
    let mut acc: u128 = 0;
    let mut i: usize = 0;
    let ghost mut p: int = 1;
    while i < 9
        invariant
            i <= 9,
            nd == nine_digits(f@),
            all_digits(f@),
            acc == digits_value(nd.take(i as int)),
            0 <= acc < p,
            p == (if i == 0 { 1int } else if i == 1 { 10 } else if i == 2 { 100 } else if i == 3 { 1000 }
                else if i == 4 { 10000 } else if i == 5 { 100000 } else if i == 6 { 1000000 }
                else if i == 7 { 10000000 } else if i == 8 { 100000000 } else { 1000000000 }),
        decreases 9 - i,
    {
        let c = if i < f.len() { f[i] } else { '0' };
        assert(c == nd[i as int]);
        assert(is_digit(c)) by {
            if i < f.len() {
                assert(is_digit(f@[i as int]));
            }
        }
        let dv = (c as u32 - '0' as u32) as u128;
        assert(nd.take(i + 1).drop_last() == nd.take(i as int));
        proof { lemma_pow_step(acc as int, dv as int, p); }
        acc = acc * 10 + dv;
        proof { p = p * 10; }
        i += 1;
    }
    assert(nd.take(9) == nd);
    acc
}

/// Reads a decimal count as `decimal_spec` describes it.
pub fn parse_decimal(s: &[char]) -> (r: Option<u128>)
    ensures
        r == decimal_spec(s@),
{
    let parts = split_chars(s, '.');
    let ghost pv = parts@.map_values(|p: Vec<char>| p@);
    proof { lemma_split_nonempty(s@, '.'); }
    assert(pv[0] == parts@[0]@);
    if parts.len() > 2 {
        return None;
    }
    let empty: Vec<char> = Vec::new();
    let frac: &[char] = if parts.len() == 2 {
        assert(pv[1] == parts@[1]@);
        parts[1].as_slice()
    } else {
        empty.as_slice()
    };
    if parts[0].len() == 0 && frac.len() == 0 {
        return None;
    }
    if !all_digit_chars(frac) {
        return None;
    }
    assert(frac@ == (if pv.len() == 2 { pv[1] } else { Seq::<char>::empty() }));
    let frac_v = parse_nine(frac);
    proof { lemma_digits_nonneg(parts@[0]@); }
    let int_v = match parse_digits(parts[0].as_slice()) {
        Some(v) => v,
        None => {
            return None;
        },
    };
    match int_v.checked_mul(1_000_000_000) {
        Some(m) => m.checked_add(frac_v),
        None => None,
    }
}

/// The marker that starts a line carrying a self-profile payload.
pub open spec fn marker() -> Seq<char> {
    "!self-profile-output:"@
}

/// `str::lines`: pieces between newlines, a `\r` before a newline dropped,
/// and no empty last line after a final newline.
pub open spec fn lines_spec(s: Seq<char>) -> Seq<Seq<char>> {
    let pieces = split_spec(s, '\n');
    let body = Seq::new((pieces.len() - 1) as nat, |i: int| strip_cr(pieces[i]));
    if pieces.last().len() == 0 {
        body
    } else {
        body.push(pieces.last())
    }
}

pub open spec fn strip_cr(l: Seq<char>) -> Seq<char> {
    if l.len() > 0 && l.last() == '\r' {
        l.drop_last()
    } else {
        l
    }
}

/// Field `k` of a statistic line, trimmed.
pub open spec fn field(l: Seq<char>, k: int) -> Seq<char> {
    trim_spec(split_spec(l, ';')[k])
}

pub open spec fn is_profile_line(l: Seq<char>) -> bool {
    starts_with_spec(l, marker())
}

/// A line with a count that is examined: not a profile line, five fields,
/// and a count that is neither empty nor `<not supported>`.
pub open spec fn is_counted_line(l: Seq<char>) -> bool {
    &&& !is_profile_line(l)
    &&& split_spec(l, ';').len() >= 5
    &&& field(l, 0).len() > 0
    &&& field(l, 0) != "<not supported>"@
}

pub open spec fn fully_active(l: Seq<char>) -> bool {
    starts_with_spec(field(l, 4), "100."@)
}

/// A counted line that makes the whole output invalid.
pub open spec fn is_bad_line(l: Seq<char>) -> bool {
    is_counted_line(l) && (!fully_active(l) || decimal_spec(field(l, 0)) is None)
}

pub open spec fn is_stat_line(l: Seq<char>) -> bool {
    is_counted_line(l) && fully_active(l) && decimal_spec(field(l, 0)) is Some
}

/// The first line that makes the output invalid.
pub open spec fn first_bad_line(lines: Seq<Seq<char>>) -> Option<Seq<char>>
    decreases lines.len(),
{
    if lines.len() == 0 {
        None
    } else if is_bad_line(lines[0]) {
        Some(lines[0])
    } else {
        first_bad_line(lines.drop_first())
    }
}

/// The statistics of the lines, a later line for a name replacing an earlier one.
pub open spec fn stats_of(lines: Seq<Seq<char>>) -> Map<Seq<char>, u128>
    decreases lines.len(),
{
    if lines.len() == 0 {
        Map::empty()
    } else if is_stat_line(lines.last()) {
        stats_of(lines.drop_last()).insert(
            field(lines.last(), 2),
            decimal_spec(field(lines.last(), 0))->0,
        )
    } else {
        stats_of(lines.drop_last())
    }
}

/// The payload of the last self-profile line.
pub open spec fn profile_of(lines: Seq<Seq<char>>) -> Option<Seq<char>>
    decreases lines.len(),
{
    if lines.len() == 0 {
        None
    } else if is_profile_line(lines.last()) {
        Some(lines.last().skip(marker().len() as int))
    } else {
        profile_of(lines.drop_last())
    }
}

/// What parsing `out` yields: the error of the first bad line; else
/// `NoOutput` without statistics; else the statistics and the last payload.
pub open spec fn perf_output_matches(
    r: Result<(Stats, Option<SelfProfile>), DeserializeStatError>,
    out: Seq<char>,
) -> bool {
    let lines = lines_spec(out);
    match first_bad_line(lines) {
        Some(l) => if !fully_active(l) {
            r matches Err(DeserializeStatError::PartlyActive(n, p)) && n@ == field(l, 2) && p@
                == field(l, 4)
        } else {
            r matches Err(DeserializeStatError::ParseError(c)) && c@ == field(l, 0)
        },
        None => if stats_of(lines).dom().len() == 0 {
            r matches Err(DeserializeStatError::NoOutput(o)) && o@ == out
        } else {
            r matches Ok((s, p)) && s.wf() && s@ == stats_of(lines) && match (p, profile_of(lines)) {
                (Some(a), Some(b)) => a.json@ == b,
                (None, None) => true,
                _ => false,
            }
        },
    }
}

/// Splits text into lines as `str::lines` does.
pub fn lines_of(s: &[char]) -> (r: Vec<Vec<char>>)
    ensures
        r@.map_values(|l: Vec<char>| l@) == lines_spec(s@),
{
    let pieces = split_chars(s, '\n');
    let ghost pv = pieces@.map_values(|p: Vec<char>| p@);
    proof { lemma_split_nonempty(s@, '\n'); }
    let n = pieces.len();
    let ghost body = Seq::new((pv.len() - 1) as nat, |i: int| strip_cr(pv[i]));
    let mut r: Vec<Vec<char>> = Vec::new();
    let mut i: usize = 0;
    while i + 1 < n
        invariant
            n == pieces@.len(),
            n >= 1,
            i + 1 <= n,
            pv == pieces@.map_values(|p: Vec<char>| p@),
            body == Seq::new((pv.len() - 1) as nat, |i: int| strip_cr(pv[i])),
            r@.map_values(|l: Vec<char>| l@) == body.take(i as int),
        decreases n - i,
    {
        let p = pieces[i].as_slice();
        assert(p@ == pv[i as int]);
        let line = if p.len() > 0 && p[p.len() - 1] == '\r' {
            crate::text::prefix_to(p, p.len() - 1)
        } else {
            crate::text::prefix_to(p, p.len())
        };
        proof {
            assert(p@.take(p@.len() as int) == p@);
            if p@.len() > 0 {
                assert(p@.take(p@.len() - 1) == p@.drop_last());
            }
        }
        assert(line@ == body[i as int]);
        let ghost before = r@.map_values(|l: Vec<char>| l@);
        r.push(line);
        assert(r@.map_values(|l: Vec<char>| l@) == before.push(line@));
        assert(body.take(i + 1) == body.take(i as int).push(body[i as int]));
        assert(r@.map_values(|l: Vec<char>| l@) == body.take(i + 1));
        i += 1;
    }
    assert(body.take(body.len() as int) == body);
    let last = pieces[n - 1].as_slice();
    assert(last@ == pv.last());
    if last.len() > 0 {
        r.push(crate::text::prefix_to(last, last.len()));
        assert(last@.take(last@.len() as int) == last@);
        assert(r@.map_values(|l: Vec<char>| l@) == body.push(pv.last()));
    }
    r
}

/// What one line contributes.
enum LineClass {
    Skip,
    Profile(Vec<char>),
    Stat(Vec<char>, u128),
    Partly(Vec<char>, Vec<char>),
    BadCount(Vec<char>),
}

fn classify_line(l: &[char]) -> (r: LineClass)
    ensures
        match r {
            LineClass::Skip => !is_profile_line(l@) && !is_counted_line(l@),
            LineClass::Profile(p) => is_profile_line(l@) && p@ == l@.skip(marker().len() as int),
            LineClass::Stat(n, v) => is_stat_line(l@) && n@ == field(l@, 2) && v == decimal_spec(
                field(l@, 0),
            )->0,
            LineClass::Partly(n, p) => is_bad_line(l@) && !fully_active(l@) && n@ == field(l@, 2)
                && p@ == field(l@, 4),
            LineClass::BadCount(c) => is_bad_line(l@) && fully_active(l@) && c@ == field(l@, 0),
        },
{
    let m = chars_of("!self-profile-output:");
    if starts_with(l, m.as_slice()) {
        return LineClass::Profile(suffix_from(l, m.len()));
    }
    let parts = split_chars(l, ';');
    let ghost pv = parts@.map_values(|p: Vec<char>| p@);
    if parts.len() < 5 {
        return LineClass::Skip;
    }
    let cnt = trim(parts[0].as_slice());
    let name = trim(parts[2].as_slice());
    let pct = trim(parts[4].as_slice());
    assert(pv[0] == parts@[0]@ && pv[2] == parts@[2]@ && pv[4] == parts@[4]@);
    let not_supported = chars_of("<not supported>");
    if cnt.len() == 0 || chars_eq(cnt.as_slice(), not_supported.as_slice()) {
        return LineClass::Skip;
    }
    let hundred = chars_of("100.");
    if !starts_with(pct.as_slice(), hundred.as_slice()) {
        return LineClass::Partly(name, pct);
    }
    match parse_decimal(cnt.as_slice()) {
        Some(v) => LineClass::Stat(name, v),
        None => LineClass::BadCount(cnt),
    }
}

/// Parses the standard output of one measured execution into statistics and
/// the self-profile payload, if any.
pub fn process_perf_stat_output(stdout: &str) -> (r: Result<(Stats, Option<SelfProfile>), DeserializeStatError>)
    ensures
        perf_output_matches(r, stdout@),
{
    let chars = chars_of(stdout);
    let lines = lines_of(chars.as_slice());
    let ghost lv = lines@.map_values(|l: Vec<char>| l@);
    let mut stats = Stats::new();
    let mut profile: Option<Vec<char>> = None;
    let mut i: usize = 0;
    assert(lv.skip(0) == lv);
    while i < lines.len()
        invariant
            i <= lines@.len(),
            lv == lines@.map_values(|l: Vec<char>| l@),
            lv == lines_spec(stdout@),
            first_bad_line(lv) == first_bad_line(lv.skip(i as int)),
            stats.wf(),
            stats@ == stats_of(lv.take(i as int)),
            match (profile, profile_of(lv.take(i as int))) {
                (Some(a), Some(b)) => a@ == b,
                (None, None) => true,
                _ => false,
            },
        decreases lines@.len() - i,
    {
        let class = classify_line(lines[i].as_slice());
        assert(lines@[i as int]@ == lv[i as int]);
        assert(lv.skip(i as int)[0] == lv[i as int]);
        assert(lv.take(i + 1).drop_last() == lv.take(i as int));
        assert(lv.take(i + 1).last() == lv[i as int]);
        match class {
            LineClass::Skip => {},
            LineClass::Profile(p) => {
                profile = Some(p);
            },
            LineClass::Stat(n, v) => {
                stats.insert(string_of(n.as_slice()), v);
            },
            LineClass::Partly(n, p) => {
                return Err(DeserializeStatError::PartlyActive(string_of(n.as_slice()), string_of(p.as_slice())));
            },
            LineClass::BadCount(c) => {
                return Err(DeserializeStatError::ParseError(string_of(c.as_slice())));
            },
        }
        assert(lv.skip(i as int).drop_first() == lv.skip(i + 1));
        i += 1;
    }
    assert(lv.take(lv.len() as int) == lv);
    assert(first_bad_line(lv.skip(lv.len() as int)) is None);
    if stats.is_empty() {
        return Err(DeserializeStatError::NoOutput(string_of(chars.as_slice())));
    }
    let profile = match profile {
        Some(p) => Some(SelfProfile { json: string_of(p.as_slice()) }),
        None => None,
    };
    Ok((stats, profile))
}

proof fn lemma_no_bad_line(lines: Seq<Seq<char>>)
    requires
        forall|j: int| 0 <= j < lines.len() ==> !is_bad_line(#[trigger] lines[j]),
    ensures
        first_bad_line(lines) is None,
    decreases lines.len(),
{
    if lines.len() > 0 {
        assert forall|j: int| 0 <= j < lines.drop_first().len() implies !is_bad_line(#[trigger] lines.drop_first()[j]) by {
            assert(lines.drop_first()[j] == lines[j + 1]);
        }
        lemma_no_bad_line(lines.drop_first());
    }
}

proof fn lemma_some_bad_line(lines: Seq<Seq<char>>, j: int)
    requires
        0 <= j < lines.len(),
        is_bad_line(lines[j]),
    ensures
        first_bad_line(lines) matches Some(l) && is_bad_line(l),
    decreases lines.len(),
{
    if !is_bad_line(lines[0]) {
        assert(lines.drop_first()[j - 1] == lines[j]);
        lemma_some_bad_line(lines.drop_first(), j - 1);
    }
}

proof fn lemma_stats_finite(lines: Seq<Seq<char>>)
    ensures
        stats_of(lines).dom().finite(),
    decreases lines.len(),
{
    if lines.len() > 0 {
        lemma_stats_finite(lines.drop_last());
    }
}

proof fn lemma_stats_keys(lines: Seq<Seq<char>>)
    ensures
        forall|k: Seq<char>| #[trigger] stats_of(lines).contains_key(k) <==> exists|j: int|
            0 <= j < lines.len() && is_stat_line(lines[j]) && field(lines[j], 2) == k,
    decreases lines.len(),
{
    if lines.len() > 0 {
        let init = lines.drop_last();
        lemma_stats_keys(init);
        assert(stats_of(lines) == if is_stat_line(lines.last()) {
            stats_of(init).insert(field(lines.last(), 2), decimal_spec(field(lines.last(), 0))->0)
        } else {
            stats_of(init)
        });
        assert forall|k: Seq<char>| #[trigger] stats_of(lines).contains_key(k) <==> exists|j: int|
            0 <= j < lines.len() && is_stat_line(lines[j]) && field(lines[j], 2) == k by {
            if exists|j: int| 0 <= j < lines.len() && is_stat_line(lines[j]) && field(lines[j], 2) == k {
                let j = choose|j: int| 0 <= j < lines.len() && is_stat_line(lines[j]) && field(lines[j], 2) == k;
                if j < init.len() {
                    assert(init[j] == lines[j]);
                    assert(stats_of(init).contains_key(k));
                }
            }
            if stats_of(lines).contains_key(k) {
                if !(is_stat_line(lines.last()) && field(lines.last(), 2) == k) {
                    assert(stats_of(init).contains_key(k));
                    let j = choose|j: int| 0 <= j < init.len() && is_stat_line(init[j]) && field(init[j], 2) == k;
                    assert(init[j] == lines[j]);
                } else {
                    assert(is_stat_line(lines[lines.len() - 1]));
                }
            }
        }
    }
}

/// Output whose counted lines are all well formed and fully active (`100.0`)
/// parses without error into one statistic per name that its lines give,
/// when there is at least one such line.
pub proof fn lemma_full_activity_parses(
    out: Seq<char>,
    r: Result<(Stats, Option<SelfProfile>), DeserializeStatError>,
)
    requires
        perf_output_matches(r, out),
        forall|j: int| 0 <= j < lines_spec(out).len() && is_counted_line(#[trigger] lines_spec(out)[j])
            ==> field(lines_spec(out)[j], 4) == "100.0"@ && decimal_spec(field(lines_spec(out)[j], 0)) is Some,
        exists|j: int| 0 <= j < lines_spec(out).len() && is_counted_line(#[trigger] lines_spec(out)[j]),
    ensures
        r matches Ok((s, _)) && s@.dom().len() > 0 && forall|k: Seq<char>| #[trigger] s@.contains_key(k)
            <==> exists|j: int| 0 <= j < lines_spec(out).len() && is_counted_line(lines_spec(out)[j])
            && field(lines_spec(out)[j], 2) == k,
{
    let lines = lines_spec(out);
    reveal_strlit("100.0");
    reveal_strlit("100.");
    assert(starts_with_spec("100.0"@, "100."@)) by {
        assert("100.0"@.take(4) =~= "100."@);
    }
    assert forall|j: int| 0 <= j < lines.len() implies !is_bad_line(#[trigger] lines[j]) by {
        if is_counted_line(lines[j]) {
            assert(field(lines[j], 4) == "100.0"@);
        }
    }
    lemma_no_bad_line(lines);
    lemma_stats_keys(lines);
    let j0 = choose|j: int| 0 <= j < lines.len() && is_counted_line(#[trigger] lines[j]);
    assert(is_stat_line(lines[j0]));
    assert(stats_of(lines).contains_key(field(lines[j0], 2)));
    let key = field(lines[j0], 2);
    match r {
        Ok((s, _)) => {
            s.lemma_finite();
            assert(s@.dom().contains(key));
            assert(s@.dom().remove(key).len() + 1 == s@.dom().len());
            assert forall|k: Seq<char>| #[trigger] s@.contains_key(k)
                <==> exists|j: int| 0 <= j < lines.len() && is_counted_line(lines[j])
                && field(lines[j], 2) == k by {
                if exists|j: int| 0 <= j < lines.len() && is_counted_line(lines[j]) && field(lines[j], 2) == k {
                    let j = choose|j: int| 0 <= j < lines.len() && is_counted_line(lines[j]) && field(lines[j], 2) == k;
                    assert(is_counted_line(lines[j]));
                    assert(is_stat_line(lines[j]));
                }
            }
        },
        Err(_) => {
            lemma_stats_finite(lines);
            vstd::set_lib::lemma_set_empty_equivalency_len(stats_of(lines).dom());
            assert(stats_of(lines).dom().contains(key));
        },
    }
}

/// Output with a counted line whose counter was not active for the whole run
/// never parses into statistics: the error is one that is not retried.
pub proof fn lemma_partial_activity_fails(
    out: Seq<char>,
    r: Result<(Stats, Option<SelfProfile>), DeserializeStatError>,
)
    requires
        perf_output_matches(r, out),
        exists|j: int| 0 <= j < lines_spec(out).len() && is_counted_line(#[trigger] lines_spec(out)[j])
            && !starts_with_spec(field(lines_spec(out)[j], 4), "100."@),
    ensures
        r matches Err(e) && !(e is NoOutput),
{
    let lines = lines_spec(out);
    let j = choose|j: int| 0 <= j < lines.len() && is_counted_line(#[trigger] lines[j])
        && !starts_with_spec(field(lines[j], 4), "100."@);
    lemma_some_bad_line(lines, j);
}

/// Output without any counted line yields no statistics, which is the
/// retryable outcome and never a fatal one.
pub proof fn lemma_no_statistics_is_retryable(
    out: Seq<char>,
    r: Result<(Stats, Option<SelfProfile>), DeserializeStatError>,
)
    requires
        perf_output_matches(r, out),
        forall|j: int| 0 <= j < lines_spec(out).len() ==> !is_counted_line(#[trigger] lines_spec(out)[j]),
    ensures
        r matches Err(DeserializeStatError::NoOutput(_)),
{
    let lines = lines_spec(out);
    lemma_no_bad_line(lines);
    lemma_stats_keys(lines);
    assert(stats_of(lines).dom() =~= Set::<Seq<char>>::empty()) by {
        assert forall|k: Seq<char>| !#[trigger] stats_of(lines).contains_key(k) by {
            if stats_of(lines).contains_key(k) {
                let j = choose|j: int| 0 <= j < lines.len() && is_stat_line(lines[j]) && field(lines[j], 2) == k;
                assert(!is_counted_line(lines[j]));
            }
        }
    }
}

} // verus!
