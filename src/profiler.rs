//! The instrumentation tools, and where each may be used.
use vstd::prelude::*;
use crate::kinds::{BuildKind, RunKind};
use crate::text::{str_eq, string_of, chars_of};

verus! {

/// An instrumentation tool that a measured compilation can run under.
#[derive(Clone, Copy, Debug, PartialEq, Eq, Structural)]
pub enum Profiler {
    PerfStat,
    PerfStatSelfProfile,
    SelfProfile,
    TimePasses,
    PerfRecord,
    OProfile,
    Cachegrind,
    Callgrind,
    DHAT,
    Massif,
    Eprintln,
    LlvmLines,
}

/// Tools usable with the benchmarking commands.
#[derive(Clone, Copy, Debug, PartialEq, Eq, Structural)]
pub enum Bencher {
    PerfStat,
    PerfStatSelfProfile,
    XperfStat,
    XperfStatSelfProfile,
}

impl Bencher {
    /// The counting tool of the benchmarking commands: `perf` on Unix,
    /// `xperf` elsewhere, with self-profiling in the first collection when
    /// it is asked for.
    pub fn for_collection(first_collection: bool, self_profile: bool, unix: bool) -> (r: Bencher)
        ensures
            r == (if first_collection && self_profile {
                if unix { Bencher::PerfStatSelfProfile } else { Bencher::XperfStatSelfProfile }
            } else {
                if unix { Bencher::PerfStat } else { Bencher::XperfStat }
            }),
    {
        if first_collection && self_profile {
            if unix {
                Bencher::PerfStatSelfProfile
            } else {
                Bencher::XperfStatSelfProfile
            }
        } else {
            if unix {
                Bencher::PerfStat
            } else {
                Bencher::XperfStat
            }
        }
    }
}

/// Why a tool name was refused.
#[derive(Debug, PartialEq, Eq)]
pub enum FromNameError {
    /// `perf-stat` is only reachable through the benchmarking commands.
    PerfStat,
    UnknownProfiler(String),
}

/// The tool that a name selects for profiling; `perf-stat` and unknown names
/// select none.
pub open spec fn profiler_named(name: Seq<char>) -> Option<Profiler> {
    if name == "self-profile"@ {
        Some(Profiler::SelfProfile)
    } else if name == "time-passes"@ {
        Some(Profiler::TimePasses)
    } else if name == "perf-record"@ {
        Some(Profiler::PerfRecord)
    } else if name == "oprofile"@ {
        Some(Profiler::OProfile)
    } else if name == "cachegrind"@ {
        Some(Profiler::Cachegrind)
    } else if name == "callgrind"@ {
        Some(Profiler::Callgrind)
    } else if name == "dhat"@ {
        Some(Profiler::DHAT)
    } else if name == "massif"@ {
        Some(Profiler::Massif)
    } else if name == "eprintln"@ {
        Some(Profiler::Eprintln)
    } else if name == "llvm-lines"@ {
        Some(Profiler::LlvmLines)
    } else {
        None
    }
}

pub open spec fn profiler_name(p: Profiler) -> Seq<char> {
    match p {
        Profiler::PerfStat => "perf-stat"@,
        Profiler::PerfStatSelfProfile => "perf-stat-self-profile"@,
        Profiler::SelfProfile => "self-profile"@,
        Profiler::TimePasses => "time-passes"@,
        Profiler::PerfRecord => "perf-record"@,
        Profiler::OProfile => "oprofile"@,
        Profiler::Cachegrind => "cachegrind"@,
        Profiler::Callgrind => "callgrind"@,
        Profiler::DHAT => "dhat"@,
        Profiler::Massif => "massif"@,
        Profiler::Eprintln => "eprintln"@,
        Profiler::LlvmLines => "llvm-lines"@,
    }
}

impl Profiler {
    pub open spec fn is_build_kind_allowed_spec(&self, build_kind: BuildKind) -> bool {
        *self != Profiler::LlvmLines || build_kind != BuildKind::Check
    }

    pub open spec fn is_run_kind_allowed_spec(&self, run_kind: RunKind) -> bool {
        *self != Profiler::LlvmLines || run_kind == RunKind::Full
    }

    /// The tool named `name`, for direct use by the profiling command.
    pub fn from_name(name: &str) -> (r: Result<Profiler, FromNameError>)
        ensures
            name@ == "perf-stat"@ ==> r == Err::<Profiler, FromNameError>(FromNameError::PerfStat),
            name@ != "perf-stat"@ ==> match profiler_named(name@) {
                Some(p) => r == Ok::<Profiler, FromNameError>(p),
                None => r matches Err(FromNameError::UnknownProfiler(s)) && s@ == name@,
            },
    {
        if str_eq(name, "perf-stat") {
            Err(FromNameError::PerfStat)
        } else if str_eq(name, "self-profile") {
            Ok(Profiler::SelfProfile)
        } else if str_eq(name, "time-passes") {
            Ok(Profiler::TimePasses)
        } else if str_eq(name, "perf-record") {
            Ok(Profiler::PerfRecord)
        } else if str_eq(name, "oprofile") {
            Ok(Profiler::OProfile)
        } else if str_eq(name, "cachegrind") {
            Ok(Profiler::Cachegrind)
        } else if str_eq(name, "callgrind") {
            Ok(Profiler::Callgrind)
        } else if str_eq(name, "dhat") {
            Ok(Profiler::DHAT)
        } else if str_eq(name, "massif") {
            Ok(Profiler::Massif)
        } else if str_eq(name, "eprintln") {
            Ok(Profiler::Eprintln)
        } else if str_eq(name, "llvm-lines") {
            Ok(Profiler::LlvmLines)
        } else {
            let c = chars_of(name);
            Err(FromNameError::UnknownProfiler(string_of(c.as_slice())))
        }
    }

    /// The name by which the compiler shim recognises the tool.
    pub fn name(&self) -> (r: &'static str)
        ensures
            r@ == profiler_name(*self),
    {
        match self {
            Profiler::PerfStat => "perf-stat",
            Profiler::PerfStatSelfProfile => "perf-stat-self-profile",
            Profiler::SelfProfile => "self-profile",
            Profiler::TimePasses => "time-passes",
            Profiler::PerfRecord => "perf-record",
            Profiler::OProfile => "oprofile",
            Profiler::Cachegrind => "cachegrind",
            Profiler::Callgrind => "callgrind",
            Profiler::DHAT => "dhat",
            Profiler::Massif => "massif",
            Profiler::Eprintln => "eprintln",
            Profiler::LlvmLines => "llvm-lines",
        }
    }

    /// The cargo subcommand to run under this tool; a subcommand other than
    /// `rustc` itself invokes `rustc`.
    pub fn subcommand(&self) -> (r: &'static str)
        ensures
            *self == Profiler::LlvmLines ==> r@ == "llvm-lines"@,
            *self != Profiler::LlvmLines ==> r@ == "rustc"@,
    {
        match self {
            Profiler::LlvmLines => "llvm-lines",
            _ => "rustc",
        }
    }

    /// Whether the tool can measure builds of `build_kind`.
    pub fn is_build_kind_allowed(&self, build_kind: BuildKind) -> (r: bool)
        ensures
            r == self.is_build_kind_allowed_spec(build_kind),
    {
        match self {
            Profiler::LlvmLines => build_kind != BuildKind::Check,
            _ => true,
        }
    }

    /// Whether the tool can measure runs of `run_kind`.
    pub fn is_run_kind_allowed(&self, run_kind: RunKind) -> (r: bool)
        ensures
            r == self.is_run_kind_allowed_spec(run_kind),
    {
        match self {
            Profiler::LlvmLines => run_kind == RunKind::Full,
            _ => true,
        }
    }
}

} // verus!
