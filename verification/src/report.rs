//! Validation reports: issue severities, the warn/strict mode, the exit status
//! a report asks for, and the text a report prints.
use vstd::prelude::*;

use crate::numtext::{decimal, push_decimal};
use crate::text::{push_str, string_of};

verus! {

/// How strictly a validation treats warnings.
#[derive(Debug, Clone, Copy, PartialEq, Eq, Structural)]
pub enum Mode {
    Warn,
    Strict,
}

/// Label of a mode.
pub open spec fn mode_label(mode: Mode) -> Seq<char> {
    match mode {
        Mode::Warn => "warn"@,
        Mode::Strict => "strict"@,
    }
}

impl Mode {
    /// Whether warnings count as failures.
    pub fn is_strict(self) -> (r: bool)
        ensures
            r == (self == Mode::Strict),
    {
        match self {
            Mode::Warn => false,
            Mode::Strict => true,
        }
    }

    /// `warn` or `strict`.
    pub fn label(self) -> (r: &'static str)
        ensures
            r@ == mode_label(self),
    {
        match self {
            Mode::Warn => "warn",
            Mode::Strict => "strict",
        }
    }
}

/// Severity of a reported issue.
#[derive(Debug, Clone, Copy, PartialEq, Eq, Structural)]
pub enum Severity {
    Info,
    Warn,
    Error,
}

/// Label printed for a severity.
pub open spec fn severity_label_spec(severity: Severity) -> Seq<char> {
    match severity {
        Severity::Info => "INFO"@,
        Severity::Warn => "WARN"@,
        Severity::Error => "ERROR"@,
    }
}

/// `INFO`, `WARN` or `ERROR`.
pub fn severity_label(severity: Severity) -> (r: &'static str)
    ensures
        r@ == severity_label_spec(severity),
{
    match severity {
        Severity::Info => "INFO",
        Severity::Warn => "WARN",
        Severity::Error => "ERROR",
    }
}

/// One finding of a validation.
#[derive(Debug, Clone)]
pub struct Issue {
    pub severity: Severity,
    pub scope: String,
    pub message: String,
    pub evidence: Option<String>,
    pub remediation: Option<String>,
}

impl Issue {
    /// An issue without evidence or remediation.
    pub fn new(severity: Severity, scope: String, message: String) -> (r: Issue)
        ensures
            r.severity == severity,
            r.scope@ == scope@,
            r.message@ == message@,
            r.evidence is None,
            r.remediation is None,
    {
        Issue { severity, scope, message, evidence: None, remediation: None }
    }

    /// An error issue.
    pub fn error(scope: String, message: String) -> (r: Issue)
        ensures
            r.severity == Severity::Error,
            r.scope@ == scope@,
            r.message@ == message@,
            r.evidence is None,
            r.remediation is None,
    {
        Self::new(Severity::Error, scope, message)
    }

    /// A warning issue.
    pub fn warn(scope: String, message: String) -> (r: Issue)
        ensures
            r.severity == Severity::Warn,
            r.scope@ == scope@,
            r.message@ == message@,
            r.evidence is None,
            r.remediation is None,
    {
        Self::new(Severity::Warn, scope, message)
    }

    /// An informational issue.
    pub fn info(scope: String, message: String) -> (r: Issue)
        ensures
            r.severity == Severity::Info,
            r.scope@ == scope@,
            r.message@ == message@,
            r.evidence is None,
            r.remediation is None,
    {
        Self::new(Severity::Info, scope, message)
    }
}

/// A finding before it becomes an issue: an error where `error` holds, a
/// warning otherwise.
#[derive(Debug, Clone)]
pub struct Flagged {
    pub error: bool,
    pub scope: String,
    pub message: String,
}

/// A finding as plain values.
pub open spec fn flagged_view(f: Flagged) -> (bool, Seq<char>, Seq<char>) {
    (f.error, f.scope@, f.message@)
}

/// Findings as plain values.
pub open spec fn flagged_views(v: Seq<Flagged>) -> Seq<(bool, Seq<char>, Seq<char>)> {
    v.map_values(|f: Flagged| flagged_view(f))
}

/// A finding from plain parts.
pub fn flag(error: bool, scope: &str, message: &str) -> (f: Flagged)
    ensures
        flagged_view(f) == (error, scope@, message@),
{
    Flagged { error, scope: scope.to_string(), message: message.to_string() }
}

/// The issues of the findings, in order: errors for flagged errors,
/// warnings for the rest.
pub fn issues_of(flagged: &Vec<Flagged>) -> (r: Vec<Issue>)
    ensures
        r@.len() == flagged@.len(),
        forall|i: int| 0 <= i < r@.len() ==> {
            &&& (#[trigger] r@[i]).severity == (if flagged@[i].error { Severity::Error } else { Severity::Warn })
            &&& r@[i].scope@ == flagged@[i].scope@
            &&& r@[i].message@ == flagged@[i].message@
            &&& r@[i].evidence is None && r@[i].remediation is None
        },
{
    let mut r: Vec<Issue> = Vec::new();
    let mut i: usize = 0;
    while i < flagged.len()
        invariant
            i <= flagged@.len(),
            r@.len() == i,
            forall|j: int| 0 <= j < i ==> {
                &&& (#[trigger] r@[j]).severity == (if flagged@[j].error { Severity::Error } else { Severity::Warn })
                &&& r@[j].scope@ == flagged@[j].scope@
                &&& r@[j].message@ == flagged@[j].message@
                &&& r@[j].evidence is None && r@[j].remediation is None
            },
        decreases flagged@.len() - i,
    {
        let f = &flagged[i];
        if f.error {
            r.push(Issue::error(f.scope.clone(), f.message.clone()));
        } else {
            r.push(Issue::warn(f.scope.clone(), f.message.clone()));
        }
        i = i + 1;
    }
    r
}

/// Number of issues of `severity` in `issues`.
pub open spec fn count_severity(issues: Seq<Issue>, severity: Severity) -> nat
    decreases issues.len(),
{
    if issues.len() == 0 {
        0
    } else {
        count_severity(issues.drop_last(), severity) + if issues.last().severity == severity {
            1nat
        } else {
            0nat
        }
    }
}

/// Exit status of a validation: 1 when there is an error, or a warning in
/// strict mode; 0 otherwise.
pub open spec fn status_code_spec(mode: Mode, error_count: nat, warning_count: nat) -> int {
    if error_count > 0 || (mode == Mode::Strict && warning_count > 0) {
        1
    } else {
        0
    }
}

/// Exit status for the given counts (see `status_code_spec`).
pub fn status_code(mode: Mode, error_count: usize, warning_count: usize) -> (r: i32)
    ensures
        r as int == status_code_spec(mode, error_count as nat, warning_count as nat),
{
    if error_count > 0 || (mode.is_strict() && warning_count > 0) {
        1
    } else {
        0
    }
}

/// A titled list of issues found in one mode.
#[derive(Debug, Clone)]
pub struct Report {
    title: String,
    mode: Mode,
    issues: Vec<Issue>,
}

/// Header line of a report.
pub open spec fn header_line(title: Seq<char>, mode: Mode) -> Seq<char> {
    "=== "@ + title + " ("@ + mode_label(mode) + ") ==="@
}

/// Lines printed for one issue.
pub open spec fn issue_lines(issue: Issue) -> Seq<Seq<char>> {
    let head = "["@ + severity_label_spec(issue.severity) + "] "@ + issue.scope@ + ": "@
        + issue.message@;
    let evidence = match issue.evidence {
        Some(e) => seq!["  evidence: "@ + e@],
        None => Seq::<Seq<char>>::empty(),
    };
    let remediation = match issue.remediation {
        Some(r) => seq!["  remediation: "@ + r@],
        None => Seq::<Seq<char>>::empty(),
    };
    seq![head] + evidence + remediation
}

/// Lines printed for a list of issues, in order.
pub open spec fn issues_lines(issues: Seq<Issue>) -> Seq<Seq<char>>
    decreases issues.len(),
{
    if issues.len() == 0 {
        Seq::empty()
    } else {
        issues_lines(issues.drop_last()) + issue_lines(issues.last())
    }
}

/// Summary line of a report with issues.
pub open spec fn summary_line(errors: nat, warnings: nat) -> Seq<char> {
    "Summary: "@ + decimal(errors) + " error(s), "@ + decimal(warnings) + " warning(s)"@
}

impl Report {
    pub closed spec fn title_view(&self) -> Seq<char> {
        self.title@
    }

    pub closed spec fn mode_view(&self) -> Mode {
        self.mode
    }

    pub closed spec fn issues_view(&self) -> Seq<Issue> {
        self.issues@
    }

    /// Number of error issues.
    pub open spec fn errors(&self) -> nat {
        count_severity(self.issues_view(), Severity::Error)
    }

    /// Number of warning issues.
    pub open spec fn warnings(&self) -> nat {
        count_severity(self.issues_view(), Severity::Warn)
    }

    /// Exit status the report asks for.
    pub open spec fn status(&self) -> int {
        status_code_spec(self.mode_view(), self.errors(), self.warnings())
    }

    /// Lines the report prints: the header, the issues, and a summary when
    /// there is any issue.
    pub open spec fn lines(&self) -> Seq<Seq<char>> {
        seq![header_line(self.title_view(), self.mode_view())] + issues_lines(self.issues_view())
            + if self.issues_view().len() > 0 {
            seq![summary_line(self.errors(), self.warnings())]
        } else {
            Seq::<Seq<char>>::empty()
        }
    }

    /// An empty report.
    pub fn new(title: String, mode: Mode) -> (r: Report)
        ensures
            r.title_view() == title@,
            r.mode_view() == mode,
            r.issues_view() == Seq::<Issue>::empty(),
    {
        Report { title, mode, issues: Vec::new() }
    }

    /// Adds one issue at the end.
    pub fn push(&mut self, issue: Issue)
        ensures
            final(self).title_view() == old(self).title_view(),
            final(self).mode_view() == old(self).mode_view(),
            final(self).issues_view() == old(self).issues_view().push(issue),
    {
        self.issues.push(issue);
    }

    /// Adds issues at the end, in order.
    pub fn extend(&mut self, issues: Vec<Issue>)
        ensures
            final(self).title_view() == old(self).title_view(),
            final(self).mode_view() == old(self).mode_view(),
            final(self).issues_view() == old(self).issues_view() + issues@,
    {
        let mut more = issues;
        self.issues.append(&mut more);
    }

    /// Whether the report holds no issue.
    pub fn is_empty(&self) -> (r: bool)
        ensures
            r == (self.issues_view().len() == 0),
    {
        self.issues.len() == 0
    }

    fn count(&self, severity: Severity) -> (n: usize)
        ensures
            n as nat == count_severity(self.issues_view(), severity),
    {
        let mut n: usize = 0;
        let mut i: usize = 0;
        while i < self.issues.len()
            invariant
                i <= self.issues@.len(),
                n as nat == count_severity(self.issues@.take(i as int), severity),
                n <= i,
            decreases self.issues@.len() - i,
        {
            assert(self.issues@.take(i + 1).drop_last() == self.issues@.take(i as int));
            if self.issues[i].severity == severity {
                n = n + 1;
            }
            i = i + 1;
        }
        assert(self.issues@.take(self.issues@.len() as int) == self.issues@);
        n
    }

    /// Number of error issues.
    pub fn error_count(&self) -> (n: usize)
        ensures
            n as nat == self.errors(),
    {
        self.count(Severity::Error)
    }

    /// Number of warning issues.
    pub fn warning_count(&self) -> (n: usize)
        ensures
            n as nat == self.warnings(),
    {
        self.count(Severity::Warn)
    }

    /// Exit status the report asks for.
    pub fn status_code(&self) -> (r: i32)
        ensures
            r as int == self.status(),
    {
        status_code(self.mode, self.error_count(), self.warning_count())
    }

    /// The lines that the report prints, in order.
    pub fn render(&self) -> (lines: Vec<String>)
        ensures
            lines@.map_values(|l: String| l@) == self.lines(),
    {
        let mut out: Vec<String> = Vec::new();
        let mut head: Vec<char> = Vec::new();
        push_str(&mut head, "=== ");
        push_str(&mut head, self.title.as_str());
        push_str(&mut head, " (");
        push_str(&mut head, self.mode.label());
        push_str(&mut head, ") ===");
        out.push(string_of(&head));
        proof {
            assert(head@ =~= header_line(self.title@, self.mode));
            assert(out@.map_values(|l: String| l@) =~= seq![header_line(self.title@, self.mode)]);
        }
        let mut i: usize = 0;
        while i < self.issues.len()
            invariant
                i <= self.issues@.len(),
                out@.map_values(|l: String| l@) == seq![header_line(self.title@, self.mode)]
                    + issues_lines(self.issues@.take(i as int)),
            decreases self.issues@.len() - i,
        {
            let issue = &self.issues[i];
            let ghost before = out@.map_values(|l: String| l@);
            let mut line: Vec<char> = Vec::new();
            push_str(&mut line, "[");
            push_str(&mut line, severity_label(issue.severity));
            push_str(&mut line, "] ");
            push_str(&mut line, issue.scope.as_str());
            push_str(&mut line, ": ");
            push_str(&mut line, issue.message.as_str());
            out.push(string_of(&line));
            let ghost mut added: Seq<Seq<char>> = seq![line@];
            match &issue.evidence {
                Some(e) => {
                    let mut l: Vec<char> = Vec::new();
                    push_str(&mut l, "  evidence: ");
                    push_str(&mut l, e.as_str());
                    out.push(string_of(&l));
                    proof {
                        added = added.push(l@);
                    }
                },
                None => {},
            }
            match &issue.remediation {
                Some(r) => {
                    let mut l: Vec<char> = Vec::new();
                    push_str(&mut l, "  remediation: ");
                    push_str(&mut l, r.as_str());
                    out.push(string_of(&l));
                    proof {
                        added = added.push(l@);
                    }
                },
                None => {},
            }
            proof {
                assert(added =~= issue_lines(self.issues@[i as int]));
                assert(self.issues@.take(i + 1).drop_last() == self.issues@.take(i as int));
                assert(out@.map_values(|l: String| l@) =~= before + added);
            }
            i = i + 1;
        }
        assert(self.issues@.take(self.issues@.len() as int) == self.issues@);
        if self.issues.len() > 0 {
            let ghost before = out@.map_values(|l: String| l@);
            let mut l: Vec<char> = Vec::new();
            push_str(&mut l, "Summary: ");
            push_decimal(&mut l, self.error_count() as u64);
            push_str(&mut l, " error(s), ");
            push_decimal(&mut l, self.warning_count() as u64);
            push_str(&mut l, " warning(s)");
            out.push(string_of(&l));
            assert(out@.map_values(|l: String| l@) =~= before.push(l@));
        } else {
            assert(out@.map_values(|l: String| l@) =~= out@.map_values(|l: String| l@) + Seq::<
                Seq<char>,
            >::empty());
        }
        out
    }
}

/// Header line of a report or check run (`print_mode_header`).
pub fn mode_header(name: &str, mode: Mode) -> (r: String)
    ensures
        r@ == header_line(name@, mode),
{
    let mut head: Vec<char> = Vec::new();
    push_str(&mut head, "=== ");
    push_str(&mut head, name);
    push_str(&mut head, " (");
    push_str(&mut head, mode.label());
    push_str(&mut head, ") ===");
    assert(head@ =~= header_line(name@, mode));
    string_of(&head)
}

// ---------------------------------------------------------------------------
// Laws
// ---------------------------------------------------------------------------

proof fn lemma_count_push(issues: Seq<Issue>, issue: Issue, severity: Severity)
    ensures
        count_severity(issues.push(issue), severity) == count_severity(issues, severity) + if
        issue.severity == severity {
            1nat
        } else {
            0nat
        },
{
    assert(issues.push(issue).drop_last() == issues);
}

/// Adding an issue never lowers the exit status of a report: a failing
/// report stays failing.
pub proof fn law_status_monotone_under_push(issues: Seq<Issue>, issue: Issue, mode: Mode)
    ensures
        status_code_spec(
            mode,
            count_severity(issues, Severity::Error),
            count_severity(issues, Severity::Warn),
        ) <= status_code_spec(
            mode,
            count_severity(issues.push(issue), Severity::Error),
            count_severity(issues.push(issue), Severity::Warn),
        ),
{
    lemma_count_push(issues, issue, Severity::Error);
    lemma_count_push(issues, issue, Severity::Warn);
}

/// Strict mode fails whenever warn mode fails, on the same findings.
pub proof fn law_strict_at_least_warn(error_count: nat, warning_count: nat)
    ensures
        status_code_spec(Mode::Warn, error_count, warning_count) <= status_code_spec(
            Mode::Strict,
            error_count,
            warning_count,
        ),
{
}

/// Informational issues never change the exit status.
pub proof fn law_info_is_neutral(issues: Seq<Issue>, issue: Issue, mode: Mode)
    requires
        issue.severity == Severity::Info,
    ensures
        status_code_spec(
            mode,
            count_severity(issues, Severity::Error),
            count_severity(issues, Severity::Warn),
        ) == status_code_spec(
            mode,
            count_severity(issues.push(issue), Severity::Error),
            count_severity(issues.push(issue), Severity::Warn),
        ),
{
    lemma_count_push(issues, issue, Severity::Error);
    lemma_count_push(issues, issue, Severity::Warn);
}

/// A report without errors and warnings succeeds in either mode; a report
/// with an error fails in either mode.
pub proof fn law_errors_decide(mode: Mode, error_count: nat, warning_count: nat)
    ensures
        error_count > 0 ==> status_code_spec(mode, error_count, warning_count) == 1,
        error_count == 0 && warning_count == 0 ==> status_code_spec(
            mode,
            error_count,
            warning_count,
        ) == 0,
{
}

/// Errors and warnings together never outnumber the issues.
pub proof fn law_counts_bounded(issues: Seq<Issue>)
    ensures
        count_severity(issues, Severity::Error) + count_severity(issues, Severity::Warn)
            <= issues.len(),
    decreases issues.len(),
{
    if issues.len() > 0 {
        law_counts_bounded(issues.drop_last());
    }
}


// ---------------------------------------------------------------------------
// Strict mode only raises severities
// ---------------------------------------------------------------------------

/// Two findings differ at most in severity, and only upward: same scope,
/// same message, and an error stays an error.
pub open spec fn same_or_raised(w: (bool, Seq<char>, Seq<char>), s: (bool, Seq<char>, Seq<char>)) -> bool {
    w.1 == s.1 && w.2 == s.2 && (w.0 ==> s.0)
}

/// `strict` holds the findings of `warn`, in the same order, each as severe
/// or more.
pub open spec fn escalates(warn: Seq<(bool, Seq<char>, Seq<char>)>, strict: Seq<(bool, Seq<char>, Seq<char>)>) -> bool {
    &&& warn.len() == strict.len()
    &&& forall|i: int| 0 <= i < warn.len() ==> #[trigger] same_or_raised(warn[i], strict[i])
}

pub proof fn lemma_escalates_refl(a: Seq<(bool, Seq<char>, Seq<char>)>)
    ensures
        escalates(a, a),
{
    assert forall|i: int| 0 <= i < a.len() implies #[trigger] same_or_raised(a[i], a[i]) by {}
}

pub proof fn lemma_escalates_concat(
    a: Seq<(bool, Seq<char>, Seq<char>)>,
    b: Seq<(bool, Seq<char>, Seq<char>)>,
    c: Seq<(bool, Seq<char>, Seq<char>)>,
    d: Seq<(bool, Seq<char>, Seq<char>)>,
)
    requires
        escalates(a, c),
        escalates(b, d),
    ensures
        escalates(a + b, c + d),
{
    assert forall|i: int| 0 <= i < (a + b).len() implies #[trigger] same_or_raised((a + b)[i], (c + d)[i]) by {
        if i < a.len() {
            assert(same_or_raised(a[i], c[i]));
        } else {
            assert(same_or_raised(b[i - a.len()], d[i - a.len()]));
        }
    }
}

pub proof fn lemma_escalates_push(
    a: Seq<(bool, Seq<char>, Seq<char>)>,
    c: Seq<(bool, Seq<char>, Seq<char>)>,
    x: (bool, Seq<char>, Seq<char>),
    y: (bool, Seq<char>, Seq<char>),
)
    requires
        escalates(a, c),
        same_or_raised(x, y),
    ensures
        escalates(a.push(x), c.push(y)),
{
    assert forall|i: int| 0 <= i < a.push(x).len() implies #[trigger] same_or_raised(a.push(x)[i], c.push(y)[i]) by {
        if i < a.len() {
            assert(same_or_raised(a[i], c[i]));
        }
    }
}

/// A single finding, or none on both sides.
pub proof fn lemma_escalates_single(x: (bool, Seq<char>, Seq<char>), y: (bool, Seq<char>, Seq<char>))
    requires
        same_or_raised(x, y),
    ensures
        escalates(seq![x], seq![y]),
        escalates(Seq::<(bool, Seq<char>, Seq<char>)>::empty(), Seq::<(bool, Seq<char>, Seq<char>)>::empty()),
{
    assert(same_or_raised(seq![x][0], seq![y][0]));
}

} // verus!
