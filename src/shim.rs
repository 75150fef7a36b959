//! The compiler shim: it strips the wrapping marker from the compiler's
//! arguments, picks the command that wraps the compiler, and prints the
//! time and memory of the child in the counter-statistics format.
use vstd::prelude::*;
use crate::perf_stat::{all_digits, digits_value, parse_digits};
use crate::text::{
    chars_of, decimal_spec, padded_decimal_spec, push_decimal, push_padded_decimal, push_str,
    starts_with, starts_with_spec, str_eq, string_of,
};

verus! {

/// The argument that announces the wrapping tool; the next argument names it.
pub open spec fn wrap_flag() -> Seq<char> {
    "--wrap-rustc-with"@
}

pub open spec fn strings_view(v: Seq<String>) -> Seq<Seq<char>> {
    v.map_values(|s: String| s@)
}

/// A thread count as the shim reads it: decimal digits, optionally after a
/// `+`, that fit in a `u32`.
pub open spec fn thread_count_spec(s: Seq<char>) -> Option<u32> {
    let d = if s.len() > 0 && s[0] == '+' { s.drop_first() } else { s };
    if d.len() > 0 && all_digits(d) && digits_value(d) <= u32::MAX {
        Some(digits_value(d) as u32)
    } else {
        None
    }
}

/// The first index of the wrapping flag.
pub open spec fn flag_index(a: Seq<Seq<char>>) -> Option<int>
    decreases a.len(),
{
    if a.len() == 0 {
        None
    } else if a[0] == wrap_flag() {
        Some(0)
    } else {
        match flag_index(a.drop_first()) {
            Some(j) => Some(j + 1),
            None => None,
        }
    }
}

/// The arguments with `-Zthreads=N` when a thread count is set and
/// `-Adeprecated` appended.
pub open spec fn extended_args(args: Seq<Seq<char>>, threads: Option<Seq<char>>) -> Seq<Seq<char>> {
    let t = match threads {
        Some(s) => match thread_count_spec(s) {
            Some(n) => seq!["-Zthreads="@ + decimal_spec(n as nat)],
            None => Seq::empty(),
        },
        None => Seq::empty(),
    };
    args + t + seq!["-Adeprecated"@]
}

/// The compiler's arguments and the wrapping tool's name, the flag and the
/// name removed.
pub open spec fn shim_args_spec(args: Seq<Seq<char>>, threads: Option<Seq<char>>) -> (Seq<Seq<char>>, Option<Seq<char>>) {
    let a = extended_args(args, threads);
    match flag_index(a) {
        Some(p) => (a.take(p) + a.skip(p + 2), Some(a[p + 1])),
        None => (a, None),
    }
}

proof fn lemma_flag_index(a: Seq<Seq<char>>)
    ensures
        match flag_index(a) {
            Some(p) => 0 <= p < a.len() && a[p] == wrap_flag() && forall|m: int| 0 <= m < p ==> a[m] != wrap_flag(),
            None => forall|m: int| 0 <= m < a.len() ==> a[m] != wrap_flag(),
        },
    decreases a.len(),
{
    if a.len() > 0 {
        lemma_flag_index(a.drop_first());
        assert forall|m: int| 0 < m < a.len() implies a[m] == a.drop_first()[m - 1] by {}
    }
}

/// Reads a thread count, as `thread_count_spec` describes it.
pub fn parse_thread_count(s: &str) -> (r: Option<u32>)
    ensures
        r == thread_count_spec(s@),
{
    let c = chars_of(s);
    let d = if c.len() > 0 && c[0] == '+' { crate::text::suffix_from(c.as_slice(), 1) } else { crate::text::suffix_from(c.as_slice(), 0) };
    assert(c@.skip(0) == c@);
    assert(c@.len() > 0 ==> c@.skip(1) == c@.drop_first());
    if d.len() == 0 {
        return None;
    }
    proof { crate::perf_stat::lemma_digits_nonneg(d@); }
    match parse_digits(d.as_slice()) {
        Some(v) => if v <= u32::MAX as u128 {
            Some(v as u32)
        } else {
            None
        },
        None => None,
    }
}

/// Rewrites the shim's arguments: adds the thread count and `-Adeprecated`,
/// and takes out the wrapping flag and the tool it names.
pub fn shim_args(args: Vec<String>, threads: Option<&str>) -> (r: (Vec<String>, Option<String>))
    ensures
        (strings_view(r.0@), match r.1 {
            Some(w) => Some(w@),
            None => None::<Seq<char>>,
        }) == shim_args_spec(strings_view(args@), match threads {
            Some(t) => Some(t@),
            None => None::<Seq<char>>,
        }),
{
    let mut a = args;
    let ghost a0 = strings_view(a@);
    match threads {
        Some(t) => match parse_thread_count(t) {
            Some(n) => {
                let mut v: Vec<char> = Vec::new();
                push_str(&mut v, "-Zthreads=");
                push_decimal(&mut v, n as u64);
                a.push(string_of(v.as_slice()));
            },
            None => {},
        },
        None => {},
    }
    a.push(String::from_str("-Adeprecated"));
    let ghost th = match threads {
        Some(t) => Some(t@),
        None => None::<Seq<char>>,
    };
    assert(strings_view(a@) =~= extended_args(a0, th));
    let ghost av = strings_view(a@);
    proof { lemma_flag_index(av); }
    let mut p: usize = 0;
    while p < a.len()
        invariant
            p <= a@.len(),
            av == strings_view(a@),
            forall|m: int| 0 <= m < p ==> av[m] != wrap_flag(),
        ensures
            p <= a@.len(),
            av == strings_view(a@),
            forall|m: int| 0 <= m < p ==> av[m] != wrap_flag(),
            p < a@.len() ==> av[p as int] == wrap_flag(),
        decreases a@.len() - p,
    {
        if str_eq(a[p].as_str(), "--wrap-rustc-with") {
            break;
        }
        p += 1;
    }
    if p < a.len() - 1 {
        assert(av[p as int] == wrap_flag());
        let _flag = a.remove(p);
        let wrapper = a.remove(p);
        assert(strings_view(a@) =~= av.take(p as int) + av.skip(p + 2));
        (a, Some(wrapper))
    } else {
        assert(av.last() == "-Adeprecated"@);
        proof {
            reveal_strlit("-Adeprecated");
            reveal_strlit("--wrap-rustc-with");
            if p < a@.len() {
                assert(av[p as int] == av.last());
            }
        }
        (a, None)
    }
}

/// What the shim runs for a wrapping tool: a program (the compiler itself
/// when there is none), whether the program must be probed for first, the
/// arguments before the compiler's own, and whether the compiler's path is
/// passed as an argument.
#[derive(Debug)]
pub struct ShimCommand {
    pub program: Option<String>,
    pub probe: bool,
    pub leading: Vec<String>,
    pub pass_compiler: bool,
}

/// The program, probe, leading arguments and compiler-as-argument of each tool.
pub open spec fn shim_template(w: Seq<char>) -> Option<(Option<Seq<char>>, bool, Seq<Seq<char>>, bool)> {
    if w == "perf-stat"@ || w == "perf-stat-self-profile"@ {
        Some((Some("perf"@), true, seq!["stat"@, "-x;"@, "-e"@, "instructions:u,cycles:u,task-clock,cpu-clock,faults"@, "--log-fd"@, "1"@], true))
    } else if w == "self-profile"@ {
        Some((None, false, seq!["-Zself-profile=Zsp"@], false))
    } else if w == "time-passes"@ {
        Some((None, false, seq!["-Ztime-passes"@], false))
    } else if w == "perf-record"@ {
        Some((Some("perf"@), true, seq!["record"@, "--call-graph=dwarf"@, "--output=perf"@, "--freq=299"@, "--event=cycles:u,instructions:u"@], true))
    } else if w == "oprofile"@ {
        Some((Some("operf"@), true, seq!["operf"@], true))
    } else if w == "cachegrind"@ {
        Some((Some("valgrind"@), true, seq!["--tool=cachegrind"@, "--cache-sim=no"@, "--branch-sim=no"@, "--cachegrind-out-file=cgout"@], true))
    } else if w == "callgrind"@ {
        Some((Some("valgrind"@), true, seq!["--tool=callgrind"@, "--cache-sim=no"@, "--branch-sim=no"@, "--callgrind-out-file=clgout"@], true))
    } else if w == "dhat"@ {
        Some((Some("valgrind"@), true, seq!["--tool=dhat"@, "--num-callers=4"@, "--dhat-out-file=dhout"@], true))
    } else if w == "massif"@ {
        Some((Some("valgrind"@), true, seq!["--tool=massif"@, "--heap-admin=0"@, "--depth=15"@, "--threshold=0.2"@, "--massif-out-file=msout"@, "--alloc-fn=__rdl_alloc"@], true))
    } else if w == "eprintln"@ || w == "llvm-lines"@ {
        Some((None, false, Seq::empty(), false))
    } else {
        None
    }
}

pub open spec fn command_view(c: ShimCommand) -> (Option<Seq<char>>, bool, Seq<Seq<char>>, bool) {
    (match c.program {
        Some(p) => Some(p@),
        None => None,
    }, c.probe, strings_view(c.leading@), c.pass_compiler)
}

fn strings(v: Vec<&'static str>) -> (r: Vec<String>)
    ensures
        strings_view(r@) == v@.map_values(|s: &'static str| s@),
{
    let mut r: Vec<String> = Vec::new();
    let mut i: usize = 0;
    while i < v.len()
        invariant
            i <= v@.len(),
            strings_view(r@) == v@.take(i as int).map_values(|s: &'static str| s@),
        decreases v@.len() - i,
    {
        let ghost before = r@;
        let s = String::from_str(v[i]);
        r.push(s);
        assert(strings_view(r@) == strings_view(before).push(s@));
        assert(v@.take(i + 1) == v@.take(i as int).push(v@[i as int]));
        assert(v@.take(i + 1).map_values(|s: &'static str| s@) == v@.take(i as int).map_values(|s: &'static str| s@).push(v@[i as int]@));
        i += 1;
    }
    assert(v@.take(v@.len() as int) == v@);
    r
}

fn tool(program: &'static str, leading: Vec<&'static str>) -> (r: ShimCommand)
    ensures
        command_view(r) == (Some(program@), true, leading@.map_values(|s: &'static str| s@), true),
{
    ShimCommand { program: Some(String::from_str(program)), probe: true, leading: strings(leading), pass_compiler: true }
}

fn compiler(leading: Vec<&'static str>) -> (r: ShimCommand)
    ensures
        command_view(r) == (None::<Seq<char>>, false, leading@.map_values(|s: &'static str| s@), false),
{
    ShimCommand { program: None, probe: false, leading: strings(leading), pass_compiler: false }
}

/// The command that wraps the compiler for the tool named `wrapper`; `None`
/// for an unknown tool.
pub fn shim_command(wrapper: &str) -> (r: Option<ShimCommand>)
    ensures
        match r {
            Some(c) => shim_template(wrapper@) == Some(command_view(c)),
            None => shim_template(wrapper@) is None,
        },
{
    if str_eq(wrapper, "perf-stat") || str_eq(wrapper, "perf-stat-self-profile") {
        let r = tool("perf", vec!["stat", "-x;", "-e", "instructions:u,cycles:u,task-clock,cpu-clock,faults", "--log-fd", "1"]);
        assert(command_view(r).2 =~= seq!["stat"@, "-x;"@, "-e"@, "instructions:u,cycles:u,task-clock,cpu-clock,faults"@, "--log-fd"@, "1"@]);
        Some(r)
    } else if str_eq(wrapper, "self-profile") {
        let r = compiler(vec!["-Zself-profile=Zsp"]);
        assert(command_view(r).2 =~= seq!["-Zself-profile=Zsp"@]);
        Some(r)
    } else if str_eq(wrapper, "time-passes") {
        let r = compiler(vec!["-Ztime-passes"]);
        assert(command_view(r).2 =~= seq!["-Ztime-passes"@]);
        Some(r)
    } else if str_eq(wrapper, "perf-record") {
        let r = tool("perf", vec!["record", "--call-graph=dwarf", "--output=perf", "--freq=299", "--event=cycles:u,instructions:u"]);
        assert(command_view(r).2 =~= seq!["record"@, "--call-graph=dwarf"@, "--output=perf"@, "--freq=299"@, "--event=cycles:u,instructions:u"@]);
        Some(r)
    } else if str_eq(wrapper, "oprofile") {
        let r = tool("operf", vec!["operf"]);
        assert(command_view(r).2 =~= seq!["operf"@]);
        Some(r)
    } else if str_eq(wrapper, "cachegrind") {
        let r = tool("valgrind", vec!["--tool=cachegrind", "--cache-sim=no", "--branch-sim=no", "--cachegrind-out-file=cgout"]);
        assert(command_view(r).2 =~= seq!["--tool=cachegrind"@, "--cache-sim=no"@, "--branch-sim=no"@, "--cachegrind-out-file=cgout"@]);
        Some(r)
    } else if str_eq(wrapper, "callgrind") {
        let r = tool("valgrind", vec!["--tool=callgrind", "--cache-sim=no", "--branch-sim=no", "--callgrind-out-file=clgout"]);
        assert(command_view(r).2 =~= seq!["--tool=callgrind"@, "--cache-sim=no"@, "--branch-sim=no"@, "--callgrind-out-file=clgout"@]);
        Some(r)
    } else if str_eq(wrapper, "dhat") {
        let r = tool("valgrind", vec!["--tool=dhat", "--num-callers=4", "--dhat-out-file=dhout"]);
        assert(command_view(r).2 =~= seq!["--tool=dhat"@, "--num-callers=4"@, "--dhat-out-file=dhout"@]);
        Some(r)
    } else if str_eq(wrapper, "massif") {
        let r = tool("valgrind", vec!["--tool=massif", "--heap-admin=0", "--depth=15", "--threshold=0.2", "--massif-out-file=msout", "--alloc-fn=__rdl_alloc"]);
        assert(command_view(r).2 =~= seq!["--tool=massif"@, "--heap-admin=0"@, "--depth=15"@, "--threshold=0.2"@, "--massif-out-file=msout"@, "--alloc-fn=__rdl_alloc"@]);
        Some(r)
    } else if str_eq(wrapper, "eprintln") || str_eq(wrapper, "llvm-lines") {
        let r = compiler(vec![]);
        assert(command_view(r).2 =~= Seq::<Seq<char>>::empty());
        Some(r)
    } else {
        None
    }
}

/// `{secs}.{nanos, nine digits};;wall-time;4;100.00`: the wall time of the
/// child in the counter-statistics format.
pub fn time_line(secs: u64, nanos: u32) -> (r: String)
    ensures
        r@ == decimal_spec(secs as nat) + "."@ + padded_decimal_spec(nanos as nat, 9) + ";;wall-time;4;100.00"@,
{
    let mut v: Vec<char> = Vec::new();
    push_decimal(&mut v, secs);
    push_str(&mut v, ".");
    push_padded_decimal(&mut v, nanos as u64, 9);
    push_str(&mut v, ";;wall-time;4;100.00");
    string_of(v.as_slice())
}

/// `{kilobytes};;max-rss;3;100.00`: the peak resident memory of the child.
pub fn memory_line(max_rss: u64) -> (r: String)
    ensures
        r@ == decimal_spec(max_rss as nat) + ";;max-rss;3;100.00"@,
{
    let mut v: Vec<char> = Vec::new();
    push_decimal(&mut v, max_rss);
    push_str(&mut v, ";;max-rss;3;100.00");
    string_of(v.as_slice())
}

/// The argument after the first `--crate-name`.
pub open spec fn crate_name_spec(args: Seq<Seq<char>>) -> Option<Seq<char>>
    decreases args.len(),
{
    if args.len() < 2 {
        None
    } else if args[0] == "--crate-name"@ {
        Some(args[1])
    } else {
        crate_name_spec(args.drop_first())
    }
}

/// The crate name the compiler was invoked with.
pub fn crate_name(args: &Vec<String>) -> (r: Option<String>)
    ensures
        match r {
            Some(n) => crate_name_spec(strings_view(args@)) == Some(n@),
            None => crate_name_spec(strings_view(args@)) is None,
        },
{
    let ghost av = strings_view(args@);
    if args.len() < 2 {
        return None;
    }
    let mut i: usize = 0;
    assert(av.skip(0) == av);
    while i < args.len() - 1
        invariant
            args@.len() >= 2,
            i <= args@.len(),
            av == strings_view(args@),
            crate_name_spec(av) == crate_name_spec(av.skip(i as int)),
        decreases args@.len() - i,
    {
        assert(av.skip(i as int)[0] == av[i as int]);
        assert(av.skip(i as int)[1] == av[i + 1]);
        if str_eq(args[i].as_str(), "--crate-name") {
            return Some(args[i + 1].clone());
        }
        assert(av.skip(i as int).drop_first() == av.skip(i + 1));
        i += 1;
    }
    None
}

/// Why the self-profile files could not be told apart.
#[derive(Debug, PartialEq, Eq)]
pub enum PrefixError {
    /// No file starts with the crate name.
    NotFound,
    /// A matching file name has no `.`.
    NoExtension(String),
    /// Two matching files have different prefixes.
    Ambiguous(String, String),
}

/// The part of a file name before its first `.`.
pub open spec fn stem(f: Seq<char>) -> Seq<char> {
    crate::text::split_spec(f, '.')[0]
}

pub open spec fn has_dot(f: Seq<char>) -> bool {
    crate::text::split_spec(f, '.').len() >= 2
}

/// The common prefix of the files that start with the crate name: the part
/// before the first `.`, which every such file must share.
pub open spec fn prefix_spec(crate_name: Seq<char>, files: Seq<Seq<char>>) -> Result<Seq<char>, (int, Seq<char>, Seq<char>)>
    decreases files.len(),
{
    if files.len() == 0 {
        Err((0, Seq::empty(), Seq::empty()))
    } else {
        let f = files.last();
        let prev = prefix_spec(crate_name, files.drop_last());
        if !starts_with_spec(f, crate_name) {
            prev
        } else if prev matches Err(e) && e.0 != 0 {
            prev
        } else if !has_dot(f) {
            Err((1, f, Seq::empty()))
        } else {
            match prev {
                Ok(p) => if p == stem(f) {
                    prev
                } else {
                    Err((2, p, stem(f)))
                },
                Err(_) => Ok(stem(f)),
            }
        }
    }
}

proof fn lemma_prefix_sticky(crate_name: Seq<char>, files: Seq<Seq<char>>, i: int)
    requires
        0 <= i <= files.len(),
        prefix_spec(crate_name, files.take(i)) matches Err(e) && e.0 != 0,
    ensures
        prefix_spec(crate_name, files) == prefix_spec(crate_name, files.take(i)),
    decreases files.len() - i,
{
    if i < files.len() {
        assert(files.take(i + 1).drop_last() == files.take(i));
        lemma_prefix_sticky(crate_name, files, i + 1);
    } else {
        assert(files.take(i) == files);
    }
}

/// Finds the self-profile prefix among the file names of the output directory.
pub fn self_profile_prefix(crate_name: &str, files: &Vec<String>) -> (r: Result<String, PrefixError>)
    ensures
        match (r, prefix_spec(crate_name@, strings_view(files@))) {
            (Ok(p), Ok(q)) => p@ == q,
            (Err(PrefixError::NotFound), Err(e)) => e.0 == 0,
            (Err(PrefixError::NoExtension(f)), Err(e)) => e.0 == 1 && f@ == e.1,
            (Err(PrefixError::Ambiguous(a, b)), Err(e)) => e.0 == 2 && a@ == e.1 && b@ == e.2,
            _ => false,
        },
{
    let name = chars_of(crate_name);
    let ghost fv = strings_view(files@);
    let mut found: Option<Vec<char>> = None;
    let mut i: usize = 0;
    while i < files.len()
        invariant
            i <= files@.len(),
            name@ == crate_name@,
            fv == strings_view(files@),
            match (found, prefix_spec(crate_name@, fv.take(i as int))) {
                (Some(p), Ok(q)) => p@ == q,
                (None, Err(e)) => e.0 == 0,
                _ => false,
            },
        decreases files@.len() - i,
    {
        let f = chars_of(files[i].as_str());
        assert(fv.take(i + 1).drop_last() == fv.take(i as int));
        assert(fv.take(i + 1).last() == f@);
        if starts_with(f.as_slice(), name.as_slice()) {
            let parts = crate::text::split_chars(f.as_slice(), '.');
            proof { crate::text::lemma_split_nonempty(f@, '.'); }
            if parts.len() < 2 {
                proof { lemma_prefix_sticky(crate_name@, fv, i + 1); }
                return Err(PrefixError::NoExtension(files[i].clone()));
            }
            let st = crate::text::prefix_to(parts[0].as_slice(), parts[0].len());
            assert(parts[0]@.take(parts[0]@.len() as int) == parts[0]@);
            match &found {
                Some(p) => {
                    if !crate::text::chars_eq(p.as_slice(), st.as_slice()) {
                        proof { lemma_prefix_sticky(crate_name@, fv, i + 1); }
                        return Err(PrefixError::Ambiguous(string_of(p.as_slice()), string_of(st.as_slice())));
                    }
                },
                None => {
                    found = Some(st);
                },
            }
        }
        i += 1;
    }
    assert(fv.take(fv.len() as int) == fv);
    match found {
        Some(p) => Ok(string_of(p.as_slice())),
        None => Err(PrefixError::NotFound),
    }
}

} // verus!
