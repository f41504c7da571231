//! Quality gates: which commands each gate runs, in which mode, and how the
//! outcomes of those commands decide its verdict.
//!
//! Running a command is outside work: the caller takes the next step from a
//! `GateRun`, runs it, and records its outcome; the run decides whether the
//! gate goes on, is blocked, or has passed.
use vstd::prelude::*;

use crate::numtext::{int_text, push_int};
use crate::report::Mode;
use crate::text::{push_str, string_of};

verus! {

/// The gates of the repository.
#[derive(Debug, Clone, Copy, PartialEq, Eq, Structural)]
pub enum GateName {
    Local,
    Prepush,
    Ci,
    Release,
}

/// Label of a gate.
pub open spec fn gate_label(gate: GateName) -> Seq<char> {
    match gate {
        GateName::Local => "local"@,
        GateName::Prepush => "prepush"@,
        GateName::Ci => "ci"@,
        GateName::Release => "release"@,
    }
}

/// `local`, `prepush`, `ci` or `release`.
pub fn gate_name_label(gate: GateName) -> (r: &'static str)
    ensures
        r@ == gate_label(gate),
{
    match gate {
        GateName::Local => "local",
        GateName::Prepush => "prepush",
        GateName::Ci => "ci",
        GateName::Release => "release",
    }
}

/// The mode a gate runs in unless one is given: strict for `ci` and
/// `release`, warn for `local` and `prepush`.
pub open spec fn default_mode(gate: GateName) -> Mode {
    match gate {
        GateName::Ci | GateName::Release => Mode::Strict,
        GateName::Local | GateName::Prepush => Mode::Warn,
    }
}

/// The mode of a gate run: the one given, else its default mode.
pub fn gate_mode(explicit: Option<Mode>, gate: GateName) -> (m: Mode)
    ensures
        m == match explicit {
            Some(x) => x,
            None => default_mode(gate),
        },
{
    match explicit {
        Some(x) => x,
        None => match gate {
            GateName::Ci | GateName::Release => Mode::Strict,
            GateName::Local | GateName::Prepush => Mode::Warn,
        },
    }
}

/// One command of a gate.
#[derive(Debug, Clone)]
pub struct GateCommand {
    pub label: String,
    pub program: String,
    pub args: Vec<String>,
}

/// Views of a list of strings.
pub open spec fn string_views(v: Seq<String>) -> Seq<Seq<char>> {
    v.map_values(|s: String| s@)
}

/// A command as plain values: label, program and arguments.
pub open spec fn command_view(c: GateCommand) -> (Seq<char>, Seq<char>, Seq<Seq<char>>) {
    (c.label@, c.program@, string_views(c.args@))
}

/// Views of a list of commands.
pub open spec fn command_views(v: Seq<GateCommand>) -> Seq<(Seq<char>, Seq<char>, Seq<Seq<char>>)> {
    v.map_values(|c: GateCommand| command_view(c))
}

/// `cargo run -p repo-tools -- <rest>`.
pub open spec fn repo_tools(rest: Seq<Seq<char>>) -> Seq<Seq<char>> {
    seq!["run"@, "-p"@, "repo-tools"@, "--"@] + rest
}

/// The commands of each gate, in the order they run.
pub open spec fn gate_plan(gate: GateName, release_type: Seq<char>) -> Seq<
    (Seq<char>, Seq<char>, Seq<Seq<char>>),
> {
    match gate {
        GateName::Local => seq![
            ("toolchain doctor"@, "just"@, seq!["doctor"@]),
            ("format check"@, "just"@, seq!["fmt"@]),
            ("lint"@, "just"@, seq!["lint"@]),
        ],
        GateName::Prepush => seq![
            ("existence validation"@, "just"@, seq!["gate-existence"@, "warn"@]),
            ("import validation"@, "just"@, seq!["gate-imports"@, "strict"@]),
            ("typecheck"@, "just"@, seq!["typecheck"@]),
            ("unit test"@, "just"@, seq!["test"@]),
            ("platform validation"@, "just"@, seq!["validate-platform"@]),
        ],
        GateName::Ci => seq![
            ("full verify"@, "just"@, seq!["verify"@]),
            ("platform doctor"@, "just"@, seq!["platform-doctor"@]),
            ("validate state"@, "cargo"@, repo_tools(seq!["validate-state"@, "--mode"@, "strict"@])),
            ("boundary check"@, "cargo"@, repo_tools(seq!["boundary-check"@])),
        ],
        GateName::Release => seq![
            ("semver compatibility"@, "just"@, seq!["semver-check"@, ""@, release_type]),
            ("contract drift"@, "just"@, seq!["drift-check"@]),
            ("backend-core app-shell audit"@, "just"@, seq!["audit-backend-core"@, "strict"@]),
            ("ci gate"@, "cargo"@, repo_tools(seq!["gate"@, "ci"@, "--mode"@, "strict"@])),
            ("release build"@, "just"@, seq!["build-release"@]),
        ],
    }
}

/// `v` with `s` appended.
fn arg(v: Vec<String>, s: &str) -> (r: Vec<String>)
    ensures
        string_views(r@) == string_views(v@).push(s@),
{
    let mut v = v;
    v.push(s.to_string());
    proof {
        assert(string_views(v@) =~= string_views(v@.drop_last()).push(v@.last()@));
    }
    v
}

/// The arguments `run -p repo-tools --` that precede a repo-tools command.
fn repo_tools_args() -> (r: Vec<String>)
    ensures
        string_views(r@) == repo_tools(seq![]),
{
    let r = arg(arg(arg(arg(Vec::new(), "run"), "-p"), "repo-tools"), "--");
    assert(string_views(r@) =~= repo_tools(seq![]));
    r
}

/// A command.
fn command(label: &str, program: &str, args: Vec<String>) -> (c: GateCommand)
    ensures
        command_view(c) == (label@, program@, string_views(args@)),
{
    GateCommand { label: label.to_string(), program: program.to_string(), args }
}

/// The commands a gate runs, in order; `release_type` is handed to the
/// SemVer check of the release gate.
pub fn gate_commands(gate: GateName, release_type: &str) -> (r: Vec<GateCommand>)
    ensures
        command_views(r@) == gate_plan(gate, release_type@),
{
    let mut r: Vec<GateCommand> = Vec::new();
    match gate {
        GateName::Local => {
            r.push(command("toolchain doctor", "just", arg(Vec::new(), "doctor")));
            r.push(command("format check", "just", arg(Vec::new(), "fmt")));
            r.push(command("lint", "just", arg(Vec::new(), "lint")));
        },
        GateName::Prepush => {
            r.push(command("existence validation", "just", arg(arg(Vec::new(), "gate-existence"), "warn")));
            r.push(command("import validation", "just", arg(arg(Vec::new(), "gate-imports"), "strict")));
            r.push(command("typecheck", "just", arg(Vec::new(), "typecheck")));
            r.push(command("unit test", "just", arg(Vec::new(), "test")));
            r.push(command("platform validation", "just", arg(Vec::new(), "validate-platform")));
        },
        GateName::Ci => {
            r.push(command("full verify", "just", arg(Vec::new(), "verify")));
            r.push(command("platform doctor", "just", arg(Vec::new(), "platform-doctor")));
            r.push(
                command("validate state", "cargo", arg(arg(arg(repo_tools_args(), "validate-state"), "--mode"), "strict")),
            );
            r.push(
                command("boundary check", "cargo", arg(repo_tools_args(), "boundary-check")),
            );
        },
        GateName::Release => {
            r.push(command("semver compatibility", "just", arg(arg(arg(Vec::new(), "semver-check"), ""), release_type)));
            r.push(command("contract drift", "just", arg(Vec::new(), "drift-check")));
            r.push(command("backend-core app-shell audit", "just", arg(arg(Vec::new(), "audit-backend-core"), "strict")));
            r.push(
                command("ci gate", "cargo", arg(arg(arg(arg(repo_tools_args(), "gate"), "ci"), "--mode"), "strict")),
            );
            r.push(command("release build", "just", arg(Vec::new(), "build-release")));
        },
    }
    assert(command_views(r@) =~~= gate_plan(gate, release_type@));
    r
}

// ---------------------------------------------------------------------------
// Running a gate
// ---------------------------------------------------------------------------

/// A failed step: its label and exit code.
#[derive(Debug, Clone)]
pub struct StepFailure {
    pub label: String,
    pub exit_code: i32,
}

/// A gate in progress: its steps, how many have run, the failures so far,
/// and the step that blocked it, if one did.
pub struct GateRun {
    gate: GateName,
    mode: Mode,
    steps: Vec<GateCommand>,
    done: usize,
    failures: Vec<StepFailure>,
    blocked: bool,
}

/// How a gate ended.
#[derive(Debug, Clone)]
pub enum GateVerdict {
    /// Every step succeeded.
    Passed,
    /// Warn mode: every step ran; these failed.
    PassedWithWarnings(Vec<StepFailure>),
    /// Strict mode: the run stopped at this failing step.
    Blocked(StepFailure),
}

impl GateRun {
    pub closed spec fn gate_view(&self) -> GateName {
        self.gate
    }

    pub closed spec fn mode_view(&self) -> Mode {
        self.mode
    }

    pub closed spec fn steps_view(&self) -> Seq<GateCommand> {
        self.steps@
    }

    /// How many steps have run.
    pub closed spec fn done_view(&self) -> nat {
        self.done as nat
    }

    pub closed spec fn failures_view(&self) -> Seq<StepFailure> {
        self.failures@
    }

    pub closed spec fn blocked_view(&self) -> bool {
        self.blocked
    }

    /// Invariant of a run: in strict mode the first failure blocks it and
    /// nothing runs after; in warn mode it is never blocked.
    pub closed spec fn wf(&self) -> bool {
        &&& self.done <= self.steps@.len()
        &&& self.failures@.len() <= self.done
        &&& (self.blocked ==> self.mode == Mode::Strict)
        &&& (self.mode == Mode::Strict ==> (self.blocked <==> self.failures@.len() > 0))
        &&& (self.mode == Mode::Strict ==> self.failures@.len() <= 1)
    }

    /// The run is over: all steps ran, or it was blocked.
    pub open spec fn finished(&self) -> bool {
        self.blocked_view() || self.done_view() == self.steps_view().len()
    }

    /// A run of the given steps, none run yet.
    pub fn new(gate: GateName, mode: Mode, steps: Vec<GateCommand>) -> (r: Self)
        ensures
            r.wf(),
            r.gate_view() == gate,
            r.mode_view() == mode,
            r.steps_view() == steps@,
            r.done_view() == 0,
            r.failures_view().len() == 0,
            !r.blocked_view(),
    {
        GateRun { gate, mode, steps, done: 0, failures: Vec::new(), blocked: false }
    }

    /// The step to run next, unless the run is over.
    pub fn next_step(&self) -> (r: Option<&GateCommand>)
        requires
            self.wf(),
        ensures
            self.finished() ==> r is None,
            !self.finished() ==> (r matches Some(c) && *c == self.steps_view()[
                self.done_view() as int
            ]),
    {
        if self.blocked || self.done >= self.steps.len() {
            None
        } else {
            Some(&self.steps[self.done])
        }
    }

    /// Records the outcome of the step just run. A failure is kept; in strict
    /// mode it blocks every later step.
    pub fn record(&mut self, success: bool, exit_code: i32)
        requires
            old(self).wf(),
            !old(self).finished(),
        ensures
            final(self).wf(),
            final(self).gate_view() == old(self).gate_view(),
            final(self).mode_view() == old(self).mode_view(),
            final(self).steps_view() == old(self).steps_view(),
            final(self).done_view() == old(self).done_view() + 1,
            success ==> final(self).failures_view() == old(self).failures_view(),
            !success ==> final(self).failures_view().len() == old(self).failures_view().len() + 1
                && final(self).failures_view().drop_last() == old(self).failures_view()
                && final(self).failures_view().last().label@ == old(self).steps_view()[
                old(self).done_view() as int].label@ && final(self).failures_view().last().exit_code
                == exit_code,
            final(self).blocked_view() == (!success && old(self).mode_view() == Mode::Strict),
    {
        let d = self.done;
        let n = self.steps.len();
        assert(d < n);
        if !success {
            let label = self.steps[self.done].label.clone();
            self.failures.push(StepFailure { label, exit_code });
            if self.mode.is_strict() {
                self.blocked = true;
            }
        }
        self.done = d + 1;
    }

    /// How the finished run ended.
    pub fn verdict(&self) -> (v: GateVerdict)
        requires
            self.wf(),
            self.finished(),
        ensures
            self.failures_view().len() == 0 ==> v is Passed,
            self.blocked_view() ==> (v matches GateVerdict::Blocked(f) && f.label@
                == self.failures_view()[0].label@ && f.exit_code == self.failures_view()[0].exit_code),
            !self.blocked_view() && self.failures_view().len() > 0 ==> (
            v matches GateVerdict::PassedWithWarnings(fs) && fs@.len() == self.failures_view().len()
                && forall|i: int| 0 <= i < fs@.len() ==> #[trigger] fs@[i].label@
                    == self.failures_view()[i].label@ && fs@[i].exit_code
                    == self.failures_view()[i].exit_code),
    {
        if self.failures.len() == 0 {
            GateVerdict::Passed
        } else if self.blocked {
            let f = &self.failures[0];
            GateVerdict::Blocked(StepFailure { label: f.label.clone(), exit_code: f.exit_code })
        } else {
            let mut fs: Vec<StepFailure> = Vec::new();
            let mut i: usize = 0;
            while i < self.failures.len()
                invariant
                    i <= self.failures@.len(),
                    fs@.len() == i,
                    forall|j: int| 0 <= j < i ==> #[trigger] fs@[j].label@ == self.failures@[j].label@
                        && fs@[j].exit_code == self.failures@[j].exit_code,
                decreases self.failures@.len() - i,
            {
                let f = &self.failures[i];
                fs.push(StepFailure { label: f.label.clone(), exit_code: f.exit_code });
                i = i + 1;
            }
            GateVerdict::PassedWithWarnings(fs)
        }
    }

    /// The error message of a blocked gate: `gate-<gate> blocked by <step>`.
    pub fn blocked_message(&self, step: &StepFailure) -> (m: String)
        ensures
            m@ == "gate-"@ + gate_label(self.gate_view()) + " blocked by "@ + step.label@,
    {
        let mut v = crate::text::chars_of("gate-");
        push_str(&mut v, gate_name_label(self.gate));
        push_str(&mut v, " blocked by ");
        push_str(&mut v, step.label.as_str());
        string_of(&v)
    }
}

/// The line reporting a failed step in warn mode: `  - <label>: exit <code>`.
pub fn failure_line(f: &StepFailure) -> (m: String)
    ensures
        m@ == "  - "@ + f.label@ + ": exit "@ + int_text(f.exit_code as int),
{
    let mut v = crate::text::chars_of("  - ");
    push_str(&mut v, f.label.as_str());
    push_str(&mut v, ": exit ");
    push_int(&mut v, f.exit_code as i64);
    string_of(&v)
}

/// In strict mode a run fails at most one step: the first failure blocks it.
pub proof fn law_strict_stops_at_first_failure(run: GateRun)
    requires
        run.wf(),
        run.mode_view() == Mode::Strict,
    ensures
        run.failures_view().len() <= 1,
        run.blocked_view() <==> run.failures_view().len() == 1,
{
}

/// In warn mode a run is never blocked: it ends only when every step ran.
pub proof fn law_warn_runs_every_step(run: GateRun)
    requires
        run.wf(),
        run.mode_view() == Mode::Warn,
        run.finished(),
    ensures
        !run.blocked_view(),
        run.done_view() == run.steps_view().len(),
{
}

} // verus!
