//! The raw-artifact-capture strategy: after each execution under a
//! profiling tool, the tool's output is moved or copied to the output
//! directory under a fixed name, and post-processed there.
use vstd::prelude::*;
use crate::kinds::BuildKind;
use crate::measure::{ProcessOutputData, Retry};
use crate::profiler::Profiler;
use crate::text::{push_str, string_of};

verus! {

/// An argument of a post-processing command: `text`, followed by the path
/// in the output directory of `out_file` when there is one.
#[derive(Debug)]
pub struct ToolArg {
    pub text: String,
    pub out_file: Option<String>,
}

/// One file operation or command of the capture. `from` names a file of the
/// execution's directory, `to` and `dir` files of the output directory.
#[derive(Debug)]
pub enum ArtifactStep {
    /// Move a directory, replacing one already there.
    MoveDir { from: String, to: String },
    /// Rename the self-profile files in a directory to `Zsp.events`,
    /// `Zsp.string_data` and `Zsp.string_index`; there must be exactly these three.
    RenameSelfProfileFiles { dir: String },
    Copy { from: String, to: String },
    /// Write the execution's standard output to a file.
    SaveStdout { to: String },
    /// Write the execution's standard error to a file.
    SaveStderr { to: String },
    /// Run a command, writing its standard output to `save_to` if given.
    Run { program: String, args: Vec<ToolArg>, save_to: Option<String> },
    /// Move a file that a command left in the current directory.
    MoveFromCurrent { from: String, to: String },
}

/// Steps as values: a kind, two names, the arguments, and the file that
/// keeps a command's output.
pub type StepView = (int, Seq<char>, Seq<char>, Seq<(Seq<char>, Option<Seq<char>>)>, Option<Seq<char>>);

pub open spec fn arg_view(a: ToolArg) -> (Seq<char>, Option<Seq<char>>) {
    (a.text@, match a.out_file {
        Some(f) => Some(f@),
        None => None,
    })
}

pub open spec fn step_view(s: ArtifactStep) -> StepView {
    match s {
        ArtifactStep::MoveDir { from, to } => (0, from@, to@, Seq::empty(), None),
        ArtifactStep::RenameSelfProfileFiles { dir } => (1, dir@, Seq::empty(), Seq::empty(), None),
        ArtifactStep::Copy { from, to } => (2, from@, to@, Seq::empty(), None),
        ArtifactStep::SaveStdout { to } => (3, Seq::empty(), to@, Seq::empty(), None),
        ArtifactStep::SaveStderr { to } => (4, Seq::empty(), to@, Seq::empty(), None),
        ArtifactStep::Run { program, args, save_to } => (5, program@, Seq::empty(), args@.map_values(|a: ToolArg| arg_view(a)), match save_to {
            Some(f) => Some(f@),
            None => None,
        }),
        ArtifactStep::MoveFromCurrent { from, to } => (6, from@, to@, Seq::empty(), None),
    }
}

pub open spec fn steps_view(v: Seq<ArtifactStep>) -> Seq<StepView> {
    v.map_values(|s: ArtifactStep| step_view(s))
}

pub open spec fn build_kind_name(b: BuildKind) -> Seq<char> {
    match b {
        BuildKind::Check => "Check"@,
        BuildKind::Debug => "Debug"@,
        BuildKind::Opt => "Opt"@,
    }
}

/// Captures the output of executions under one profiling tool.
#[derive(Debug)]
pub struct ProfileProcessor {
    pub profiler: Profiler,
    pub output_dir: String,
    pub id: String,
}

/// The steps of each tool; `of` names a file of the output directory.
pub open spec fn profile_steps(p: Profiler, of: spec_fn(Seq<char>) -> Seq<char>) -> Seq<StepView> {
    let sess = "--session-dir="@;
    match p {
        Profiler::SelfProfile => {
            let zsp = of("Zsp"@);
            let files = zsp + "/Zsp"@;
            seq![
                (0, "Zsp"@, zsp, Seq::empty(), None),
                (1, zsp, Seq::empty(), Seq::empty(), None),
                (5, "summarize"@, Seq::empty(), seq![("summarize"@, None), (Seq::empty(), Some(files))], Some(of("summarize"@))),
                (5, "flamegraph"@, Seq::empty(), seq![(Seq::empty(), Some(files))], None),
                (6, "rustc.svg"@, of("flamegraph"@), Seq::empty(), None),
                (5, "crox"@, Seq::empty(), seq![(Seq::empty(), Some(files))], None),
                (6, "chrome_profiler.json"@, of("crox"@), Seq::empty(), None),
            ]
        },
        Profiler::TimePasses => seq![(3, Seq::empty(), of("Ztp"@), Seq::empty(), None)],
        Profiler::PerfRecord => seq![(2, "perf"@, of("perf"@), Seq::empty(), None)],
        Profiler::OProfile => seq![
            (0, "oprofile_data"@, of("opout"@), Seq::empty(), None),
            (5, "opreport"@, Seq::empty(), seq![("--symbols"@, None), ("--debug-info"@, None), ("--threshold"@, None), ("0.5"@, None), (sess, Some(of("opout"@)))], Some(of("oprep"@))),
            (5, "opannotate"@, Seq::empty(), seq![("--source"@, None), ("--threshold"@, None), ("0.5"@, None), (sess, Some(of("opout"@)))], Some(of("opann"@))),
        ],
        Profiler::Cachegrind => seq![
            (2, "cgout"@, of("cgout"@), Seq::empty(), None),
            (5, "cg_annotate"@, Seq::empty(), seq![("--auto=yes"@, None), ("--show-percs=yes"@, None), (Seq::empty(), Some(of("cgout"@)))], Some(of("cgann"@))),
        ],
        Profiler::Callgrind => seq![
            (2, "clgout"@, of("clgout"@), Seq::empty(), None),
            (5, "callgrind_annotate"@, Seq::empty(), seq![("--auto=yes"@, None), ("--show-percs=yes"@, None), (Seq::empty(), Some(of("clgout"@)))], Some(of("clgann"@))),
        ],
        Profiler::DHAT => seq![(2, "dhout"@, of("dhout"@), Seq::empty(), None)],
        Profiler::Massif => seq![(2, "msout"@, of("msout"@), Seq::empty(), None)],
        Profiler::Eprintln => seq![(4, Seq::empty(), of("eprintln"@), Seq::empty(), None)],
        Profiler::LlvmLines => seq![(3, Seq::empty(), of("ll"@), Seq::empty(), None)],
        _ => Seq::empty(),
    }
}

pub open spec fn is_capture_tool(p: Profiler) -> bool {
    !(p is PerfStat) && !(p is PerfStatSelfProfile)
}

fn s(x: &str) -> (r: String)
    ensures
        r@ == x@,
{
    String::from_str(x)
}

fn arg(text: &str) -> (r: ToolArg)
    ensures
        arg_view(r) == (text@, None::<Seq<char>>),
{
    ToolArg { text: s(text), out_file: None }
}

fn path_arg(text: &str, f: &String) -> (r: ToolArg)
    ensures
        arg_view(r) == (text@, Some(f@)),
{
    ToolArg { text: s(text), out_file: Some(f.clone()) }
}

impl ProfileProcessor {
    /// A processor that captures the output of `profiler` into `output_dir`,
    /// naming files after the run `id`.
    pub fn new(profiler: Profiler, output_dir: String, id: String) -> (r: ProfileProcessor)
        requires
            is_capture_tool(profiler),
        ensures
            r.profiler == profiler,
            r.output_dir == output_dir,
            r.id == id,
    {
        ProfileProcessor { profiler, output_dir, id }
    }

    pub fn profiler(&self) -> (r: Profiler)
        ensures
            r == self.profiler,
    {
        self.profiler
    }

    /// `{prefix}-{id}-{benchmark}-{build kind}-{run kind}`.
    pub open spec fn out_name(&self, data: &ProcessOutputData, prefix: Seq<char>) -> Seq<char> {
        prefix + "-"@ + self.id@ + "-"@ + data.name@ + "-"@ + build_kind_name(data.build_kind) + "-"@
            + data.run_kind_str@
    }

    /// The name in the output directory of the file with `prefix`.
    pub fn out_file(&self, data: &ProcessOutputData, prefix: &str) -> (r: String)
        ensures
            r@ == self.out_name(data, prefix@),
    {
        let mut v: Vec<char> = Vec::new();
        push_str(&mut v, prefix);
        push_str(&mut v, "-");
        push_str(&mut v, self.id.as_str());
        push_str(&mut v, "-");
        push_str(&mut v, data.name.as_str());
        push_str(&mut v, "-");
        let bk = match data.build_kind {
            BuildKind::Check => "Check",
            BuildKind::Debug => "Debug",
            BuildKind::Opt => "Opt",
        };
        push_str(&mut v, bk);
        push_str(&mut v, "-");
        push_str(&mut v, data.run_kind_str.as_str());
        string_of(v.as_slice())
    }

    /// The steps that capture the output of one execution. The execution is
    /// never repeated: a missing file means that it failed.
    pub fn process_output(&self, data: &ProcessOutputData) -> (r: (Vec<ArtifactStep>, Retry))
        requires
            is_capture_tool(self.profiler),
        ensures
            steps_view(r.0@) == profile_steps(self.profiler, |p: Seq<char>| self.out_name(data, p)),
            r.1 == Retry::No,
    {
        let ghost of = |p: Seq<char>| self.out_name(data, p);
        proof {
            reveal_strlit("");
            assert(""@ =~= Seq::<char>::empty());
        }
        let mut v: Vec<ArtifactStep> = Vec::new();
        match self.profiler {
            Profiler::SelfProfile => {
                let zsp = self.out_file(data, "Zsp");
                let mut fv: Vec<char> = Vec::new();
                push_str(&mut fv, zsp.as_str());
                push_str(&mut fv, "/Zsp");
                let files = string_of(fv.as_slice());
                let a1 = vec![arg("summarize"), path_arg("", &files)];
                assert(a1@.map_values(|a: ToolArg| arg_view(a)) =~= seq![("summarize"@, None), (Seq::empty(), Some(files@))]);
                let a2 = vec![path_arg("", &files)];
                assert(a2@.map_values(|a: ToolArg| arg_view(a)) =~= seq![(Seq::empty(), Some(files@))]);
                let a3 = vec![path_arg("", &files)];
                assert(a3@.map_values(|a: ToolArg| arg_view(a)) =~= seq![(Seq::empty(), Some(files@))]);
                v.push(ArtifactStep::MoveDir { from: s("Zsp"), to: zsp.clone() });
                v.push(ArtifactStep::RenameSelfProfileFiles { dir: zsp.clone() });
                v.push(ArtifactStep::Run { program: s("summarize"), args: a1, save_to: Some(self.out_file(data, "summarize")) });
                v.push(ArtifactStep::Run { program: s("flamegraph"), args: a2, save_to: None });
                v.push(ArtifactStep::MoveFromCurrent { from: s("rustc.svg"), to: self.out_file(data, "flamegraph") });
                v.push(ArtifactStep::Run { program: s("crox"), args: a3, save_to: None });
                v.push(ArtifactStep::MoveFromCurrent { from: s("chrome_profiler.json"), to: self.out_file(data, "crox") });
                assert(steps_view(v@) =~= profile_steps(self.profiler, of));
            },
            Profiler::TimePasses => {
                v.push(ArtifactStep::SaveStdout { to: self.out_file(data, "Ztp") });
                assert(steps_view(v@) =~= profile_steps(self.profiler, of));
            },
            Profiler::PerfRecord => {
                v.push(ArtifactStep::Copy { from: s("perf"), to: self.out_file(data, "perf") });
                assert(steps_view(v@) =~= profile_steps(self.profiler, of));
            },
            Profiler::OProfile => {
                let opout = self.out_file(data, "opout");
                let a1 = vec![arg("--symbols"), arg("--debug-info"), arg("--threshold"), arg("0.5"), path_arg("--session-dir=", &opout)];
                assert(a1@.map_values(|a: ToolArg| arg_view(a)) =~= seq![("--symbols"@, None), ("--debug-info"@, None), ("--threshold"@, None), ("0.5"@, None), ("--session-dir="@, Some(opout@))]);
                let a2 = vec![arg("--source"), arg("--threshold"), arg("0.5"), path_arg("--session-dir=", &opout)];
                assert(a2@.map_values(|a: ToolArg| arg_view(a)) =~= seq![("--source"@, None), ("--threshold"@, None), ("0.5"@, None), ("--session-dir="@, Some(opout@))]);
                v.push(ArtifactStep::MoveDir { from: s("oprofile_data"), to: opout.clone() });
                v.push(ArtifactStep::Run { program: s("opreport"), args: a1, save_to: Some(self.out_file(data, "oprep")) });
                v.push(ArtifactStep::Run { program: s("opannotate"), args: a2, save_to: Some(self.out_file(data, "opann")) });
                assert(steps_view(v@) =~= profile_steps(self.profiler, of));
            },
            Profiler::Cachegrind => {
                let cgout = self.out_file(data, "cgout");
                let a1 = vec![arg("--auto=yes"), arg("--show-percs=yes"), path_arg("", &cgout)];
                assert(a1@.map_values(|a: ToolArg| arg_view(a)) =~= seq![("--auto=yes"@, None), ("--show-percs=yes"@, None), (Seq::empty(), Some(cgout@))]);
                v.push(ArtifactStep::Copy { from: s("cgout"), to: cgout.clone() });
                v.push(ArtifactStep::Run { program: s("cg_annotate"), args: a1, save_to: Some(self.out_file(data, "cgann")) });
                assert(steps_view(v@) =~= profile_steps(self.profiler, of));
            },
            Profiler::Callgrind => {
                let clgout = self.out_file(data, "clgout");
                let a1 = vec![arg("--auto=yes"), arg("--show-percs=yes"), path_arg("", &clgout)];
                assert(a1@.map_values(|a: ToolArg| arg_view(a)) =~= seq![("--auto=yes"@, None), ("--show-percs=yes"@, None), (Seq::empty(), Some(clgout@))]);
                v.push(ArtifactStep::Copy { from: s("clgout"), to: clgout.clone() });
                v.push(ArtifactStep::Run { program: s("callgrind_annotate"), args: a1, save_to: Some(self.out_file(data, "clgann")) });
                assert(steps_view(v@) =~= profile_steps(self.profiler, of));
            },
            Profiler::DHAT => {
                v.push(ArtifactStep::Copy { from: s("dhout"), to: self.out_file(data, "dhout") });
                assert(steps_view(v@) =~= profile_steps(self.profiler, of));
            },
            Profiler::Massif => {
                v.push(ArtifactStep::Copy { from: s("msout"), to: self.out_file(data, "msout") });
                assert(steps_view(v@) =~= profile_steps(self.profiler, of));
            },
            Profiler::Eprintln => {
                v.push(ArtifactStep::SaveStderr { to: self.out_file(data, "eprintln") });
                assert(steps_view(v@) =~= profile_steps(self.profiler, of));
            },
            Profiler::LlvmLines => {
                v.push(ArtifactStep::SaveStdout { to: self.out_file(data, "ll") });
                assert(steps_view(v@) =~= profile_steps(self.profiler, of));
            },
            _ => {
                assert(steps_view(v@) =~= profile_steps(self.profiler, of));
            },
        }
        (v, Retry::No)
    }
}

} // verus!
