//! The cargo invocations of a benchmark: their arguments and environment.
use vstd::prelude::*;
use crate::kinds::BuildKind;
use crate::profiler::{profiler_name, Profiler};
use crate::runner::BenchmarkConfig;
use crate::shim::{strings_view, thread_count_spec};
use crate::text::{
    chars_of, decimal_spec, is_white_space, push_decimal, push_str, string_of, white_space,
};

verus! {

/// A toolchain to benchmark: the compiler, cargo, the target, and whether
/// the compiler is a nightly one.
#[derive(Debug)]
pub struct Compiler {
    pub rustc: String,
    pub cargo: String,
    pub triple: String,
    pub is_nightly: bool,
}

/// An installed toolchain.
#[derive(Debug)]
pub struct Sysroot {
    pub rustc: String,
    pub cargo: String,
    pub triple: String,
}

impl Compiler {
    /// The compiler of an installed (nightly) toolchain.
    pub fn from_sysroot(sysroot: &Sysroot) -> (r: Compiler)
        ensures
            r.rustc@ == sysroot.rustc@,
            r.cargo@ == sysroot.cargo@,
            r.triple@ == sysroot.triple@,
            r.is_nightly,
    {
        Compiler {
            rustc: sysroot.rustc.clone(),
            cargo: sysroot.cargo.clone(),
            triple: sysroot.triple.clone(),
            is_nightly: true,
        }
    }
}

/// The words of `s`: the non-empty runs of characters between white space.
pub open spec fn words_spec(s: Seq<char>) -> Seq<Seq<char>>
    decreases s.len(),
{
    words_from(s, 0, Seq::empty())
}

/// The words of `s` from index `i` on, the current word being `cur`.
pub open spec fn words_from(s: Seq<char>, i: int, cur: Seq<char>) -> Seq<Seq<char>>
    decreases s.len() - i,
{
    if i >= s.len() {
        if cur.len() > 0 { seq![cur] } else { Seq::empty() }
    } else if is_white_space(s[i]) {
        (if cur.len() > 0 { seq![cur] } else { Seq::empty() }) + words_from(s, i + 1, Seq::empty())
    } else {
        words_from(s, i + 1, cur.push(s[i]))
    }
}

/// Splits `s` at white space, dropping empty words (`str::split_whitespace`).
pub fn split_whitespace(s: &str) -> (r: Vec<String>)
    ensures
        strings_view(r@) == words_spec(s@),
{
    let c = chars_of(s);
    let mut out: Vec<String> = Vec::new();
    let mut cur: Vec<char> = Vec::new();
    let mut i: usize = 0;
    while i < c.len()
        invariant
            i <= c@.len(),
            c@ == s@,
            strings_view(out@) + words_from(c@, i as int, cur@) == words_spec(s@),
        decreases c@.len() - i,
    {
        if white_space(c[i]) {
            if cur.len() > 0 {
                let ghost before = out@;
                let w = string_of(cur.as_slice());
                out.push(w);
                assert(strings_view(out@) == strings_view(before).push(cur@));
                assert(strings_view(out@) + words_from(c@, i + 1, Seq::empty()) == strings_view(before) + (seq![cur@] + words_from(c@, i + 1, Seq::empty())));
            } else {
                assert(Seq::<Seq<char>>::empty() + words_from(c@, i + 1, Seq::empty()) == words_from(c@, i + 1, Seq::empty()));
            }
            cur = Vec::new();
        } else {
            cur.push(c[i]);
        }
        i += 1;
    }
    if cur.len() > 0 {
        let ghost before = out@;
        let w = string_of(cur.as_slice());
        out.push(w);
        assert(strings_view(out@) == strings_view(before).push(cur@));
        assert(strings_view(before) + seq![cur@] == strings_view(out@));
    } else {
        assert(strings_view(out@) + Seq::<Seq<char>>::empty() == strings_view(out@));
    }
    out
}

pub open spec fn opt_view(o: Option<String>) -> Seq<char> {
    match o {
        Some(s) => s@,
        None => Seq::empty(),
    }
}

/// The cargo arguments of a benchmark: its configured options, then `-jN`
/// when a cargo thread count is set.
pub open spec fn cargo_args_spec(opts: Option<String>, threads: Option<Seq<char>>) -> Seq<Seq<char>> {
    words_spec(opt_view(opts)) + match threads {
        Some(t) => match thread_count_spec(t) {
            Some(n) => seq!["-j"@ + decimal_spec(n as nat)],
            None => Seq::empty(),
        },
        None => Seq::empty(),
    }
}

/// One cargo invocation of a benchmark, before its subcommand is chosen.
#[derive(Debug)]
pub struct CargoProcess {
    pub cwd: String,
    pub build_kind: BuildKind,
    pub incremental: bool,
    pub manifest_path: String,
    pub cargo_args: Vec<String>,
    pub rustc_args: Vec<String>,
}

fn opt_str(o: &Option<String>) -> (r: Vec<String>)
    ensures
        strings_view(r@) == words_spec(opt_view(*o)),
{
    match o {
        Some(s) => split_whitespace(s.as_str()),
        None => {
            assert(words_spec(Seq::<char>::empty()) == Seq::<Seq<char>>::empty());
            Vec::new()
        },
    }
}

/// The invocation of a benchmark in directory `cwd`; `cargo_threads` is the
/// configured cargo thread count, if any.
pub fn mk_cargo_process(config: &BenchmarkConfig, cwd: &str, build_kind: BuildKind, cargo_threads: Option<&str>) -> (r: CargoProcess)
    ensures
        r.cwd@ == cwd@,
        r.build_kind == build_kind,
        !r.incremental,
        r.manifest_path@ == (match config.cargo_toml {
            Some(t) => t@,
            None => "Cargo.toml"@,
        }),
        strings_view(r.cargo_args@) == cargo_args_spec(config.cargo_opts, match cargo_threads {
            Some(t) => Some(t@),
            None => None::<Seq<char>>,
        }),
        strings_view(r.rustc_args@) == words_spec(opt_view(config.cargo_rustc_opts)),
{
    let mut cargo_args = opt_str(&config.cargo_opts);
    let ghost base = strings_view(cargo_args@);
    match cargo_threads {
        Some(t) => {
            let parsed = crate::shim::parse_thread_count(t);
            match parsed {
                Some(n) => {
                    let mut v: Vec<char> = Vec::new();
                    push_str(&mut v, "-j");
                    push_decimal(&mut v, n as u64);
                    let w = string_of(v.as_slice());
                    cargo_args.push(w);
                    assert(strings_view(cargo_args@) == base.push(w@));
                },
                None => {
                    assert(strings_view(cargo_args@) == base + Seq::<Seq<char>>::empty());
                },
            }
        },
        None => {
            assert(strings_view(cargo_args@) == base + Seq::<Seq<char>>::empty());
        },
    }
    let manifest_path = match &config.cargo_toml {
        Some(t) => t.clone(),
        None => String::from_str("Cargo.toml"),
    };
    CargoProcess {
        cwd: string_of(chars_of(cwd).as_slice()),
        build_kind,
        incremental: false,
        manifest_path,
        cargo_args,
        rustc_args: opt_str(&config.cargo_rustc_opts),
    }
}

/// The arguments of a measured compilation: the subcommand, the manifest,
/// the package, the profile flags, the configured cargo arguments, `--`,
/// and, when a tool wraps the compiler, the marker, the tool's name and the
/// configured compiler arguments.
pub open spec fn leaf_args_spec(
    p: CargoProcess,
    subcommand: Seq<char>,
    pkgid: Seq<char>,
    wrap: Option<Profiler>,
) -> Seq<Seq<char>> {
    seq![subcommand, "--manifest-path"@, p.manifest_path@, "-p"@, pkgid] + match p.build_kind {
        BuildKind::Check => seq!["--profile"@, "check"@],
        BuildKind::Debug => Seq::empty(),
        BuildKind::Opt => seq!["--release"@],
    } + strings_view(p.cargo_args@) + seq!["--"@] + match wrap {
        Some(w) => seq!["--wrap-rustc-with"@, profiler_name(w)] + strings_view(p.rustc_args@),
        None => Seq::empty(),
    }
}

fn push_all(out: &mut Vec<String>, v: &Vec<String>)
    ensures
        strings_view(final(out)@) == strings_view(old(out)@) + strings_view(v@),
{
    let ghost start = strings_view(out@);
    let mut i: usize = 0;
    while i < v.len()
        invariant
            i <= v@.len(),
            strings_view(out@) == start + strings_view(v@.take(i as int)),
        decreases v@.len() - i,
    {
        let ghost before = out@;
        out.push(v[i].clone());
        assert(strings_view(out@) == strings_view(before).push(v@[i as int]@));
        assert(strings_view(v@.take(i + 1)) == strings_view(v@.take(i as int)).push(v@[i as int]@));
        i += 1;
    }
    assert(v@.take(v@.len() as int) == v@);
}

impl CargoProcess {
    pub fn incremental(self, incremental: bool) -> (r: CargoProcess)
        ensures
            r.incremental == incremental,
            r.cwd == self.cwd,
            r.build_kind == self.build_kind,
            r.manifest_path == self.manifest_path,
            r.cargo_args == self.cargo_args,
            r.rustc_args == self.rustc_args,
    {
        CargoProcess { incremental, ..self }
    }

    /// The value of `CARGO_INCREMENTAL` for this invocation.
    pub fn incremental_var(&self) -> (r: &'static str)
        ensures
            r@ == (if self.incremental { "1"@ } else { "0"@ }),
    {
        if self.incremental { "1" } else { "0" }
    }

    /// The arguments of a measured compilation, as `leaf_args_spec` gives them.
    pub fn leaf_args(&self, subcommand: &str, pkgid: &str, wrap: Option<Profiler>) -> (r: Vec<String>)
        ensures
            strings_view(r@) == leaf_args_spec(*self, subcommand@, pkgid@, wrap),
    {
        let mut a: Vec<String> = Vec::new();
        a.push(String::from_str(subcommand));
        a.push(String::from_str("--manifest-path"));
        a.push(self.manifest_path.clone());
        a.push(String::from_str("-p"));
        a.push(String::from_str(pkgid));
        let ghost head = strings_view(a@);
        assert(head =~= seq![subcommand@, "--manifest-path"@, self.manifest_path@, "-p"@, pkgid@]);
        match self.build_kind {
            BuildKind::Check => {
                a.push(String::from_str("--profile"));
                a.push(String::from_str("check"));
            },
            BuildKind::Debug => {},
            BuildKind::Opt => {
                a.push(String::from_str("--release"));
            },
        }
        let ghost h2 = strings_view(a@);
        assert(h2 =~= head + match self.build_kind {
            BuildKind::Check => seq!["--profile"@, "check"@],
            BuildKind::Debug => Seq::empty(),
            BuildKind::Opt => seq!["--release"@],
        });
        push_all(&mut a, &self.cargo_args);
        a.push(String::from_str("--"));
        let ghost h3 = strings_view(a@);
        match wrap {
            Some(w) => {
                a.push(String::from_str("--wrap-rustc-with"));
                a.push(String::from_str(w.name()));
                let ghost h4 = strings_view(a@);
                assert(h4 =~= h3 + seq!["--wrap-rustc-with"@, profiler_name(w)]);
                push_all(&mut a, &self.rustc_args);
            },
            None => {
                assert(strings_view(a@) =~= h3 + Seq::<Seq<char>>::empty());
            },
        }
        a
    }
}

} // verus!
