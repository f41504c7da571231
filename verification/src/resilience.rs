//! Worker resilience: which strategies a worker must show (dedupe,
//! checkpoint, idempotency, retry, replay, conflict, compensation), how each
//! strategy is recognised in a worker's sources, and the findings of the
//! resilience validation.
//!
//! The caller lists what a worker's `src/` holds and reads its sources; the
//! detection itself is decided here.
use vstd::prelude::*;

use crate::contracts::{join, join_strings, vec_has};
use crate::gate::string_views;
use crate::numtext::{decimal, push_decimal};
use crate::pattern::{regex_compiles, regex_is_match, regex_match_result};
use crate::report::{Issue, Mode, Severity};
use crate::text::{chars_of, contains, contains_chars, push_str, same_chars, string_of};

verus! {

/// One way of recognising a strategy.
#[derive(Debug, Clone)]
pub enum Detector {
    /// A subdirectory of `src/` with a Rust file in it.
    Directory { name: String, evidence: String },
    /// An entry of `src/` with this name.
    File { name: String, evidence: String },
    /// `src/main.rs` matching a pattern.
    MainRs { pattern: String, evidence: String },
    /// Any Rust source under `src/` matching a pattern.
    Deep { pattern: String },
}

/// What a worker's `src/` holds.
#[derive(Debug, Clone)]
pub struct SourceFacts {
    /// Subdirectories of `src/` that hold a Rust file directly.
    pub dirs_with_rust: Vec<String>,
    /// Names of the entries of `src/`.
    pub entries: Vec<String>,
    /// Text of `src/main.rs`, where it exists.
    pub main_rs: Option<String>,
    /// Each Rust source under `src/`: its path relative to `src/` and its text.
    pub rust_files: Vec<(String, String)>,
}

/// A detector as plain values: kind (directory, file, `main.rs`, deep),
/// name or pattern, and evidence.
pub open spec fn detector_view(d: Detector) -> (nat, Seq<char>, Seq<char>) {
    match d {
        Detector::Directory { name, evidence } => (0, name@, evidence@),
        Detector::File { name, evidence } => (1, name@, evidence@),
        Detector::MainRs { pattern, evidence } => (2, pattern@, evidence@),
        Detector::Deep { pattern } => (3, pattern@, Seq::empty()),
    }
}

/// Views of detectors.
pub open spec fn detector_views(ds: Seq<Detector>) -> Seq<(nat, Seq<char>, Seq<char>)> {
    ds.map_values(|d: Detector| detector_view(d))
}

/// The detector's pattern compiles, where it has one.
pub open spec fn detector_compiles(d: (nat, Seq<char>, Seq<char>)) -> bool {
    d.0 >= 2 ==> regex_compiles(d.1)
}

/// The sources (relative paths) whose text matches `pattern`, in order.
pub open spec fn deep_matches(files: Seq<(String, String)>, pattern: Seq<char>) -> Seq<Seq<char>>
    decreases files.len(),
{
    if files.len() == 0 {
        Seq::empty()
    } else {
        let rest = deep_matches(files.drop_last(), pattern);
        if regex_match_result(pattern, files.last().1@) {
            rest.push(files.last().0@)
        } else {
            rest
        }
    }
}

/// What one detector finds: its evidence, or nothing.
pub open spec fn detector_hit(d: (nat, Seq<char>, Seq<char>), f: SourceFacts) -> Option<Seq<char>> {
    if d.0 == 0 {
        if string_views(f.dirs_with_rust@).contains(d.1) {
            Some(d.2)
        } else {
            None
        }
    } else if d.0 == 1 {
        if string_views(f.entries@).contains(d.1) {
            Some(d.2)
        } else {
            None
        }
    } else if d.0 == 2 {
        match f.main_rs {
            Some(t) => if regex_match_result(d.1, t@) {
                Some(d.2)
            } else {
                None
            },
            None => None,
        }
    } else {
        let m = deep_matches(f.rust_files@, d.1);
        if m.len() > 0 {
            Some("deep scan: "@ + decimal(m.len()) + " Rust file(s) with matches: "@ + join(m, ", "@))
        } else {
            None
        }
    }
}

/// What the detectors find, the first that finds anything deciding.
pub open spec fn detect_spec(ds: Seq<(nat, Seq<char>, Seq<char>)>, f: SourceFacts) -> (bool, Seq<char>)
    decreases ds.len(),
{
    if ds.len() == 0 {
        (false, "not found in module structure or source content"@)
    } else {
        match detector_hit(ds[0], f) {
            Some(e) => (true, e),
            None => detect_spec(ds.drop_first(), f),
        }
    }
}

/// Whether `names` holds `name`.
fn has_name(names: &Vec<String>, name: &str) -> (r: bool)
    ensures
        r == string_views(names@).contains(name@),
{
    let r = vec_has(names, name);
    proof {
        if r {
            let j = choose|j: int| 0 <= j < names@.len() && (#[trigger] names@[j])@ == name@;
            assert(string_views(names@)[j] == name@);
        }
        if string_views(names@).contains(name@) {
            let j = choose|j: int| 0 <= j < string_views(names@).len() && string_views(names@)[j] == name@;
            assert(names@[j]@ == name@);
        }
    }
    r
}

/// The relative paths of the sources matching `pattern`.
fn deep_scan(files: &Vec<(String, String)>, pattern: &str) -> (r: Vec<String>)
    requires
        regex_compiles(pattern@),
    ensures
        string_views(r@) == deep_matches(files@, pattern@),
{
    let mut out: Vec<String> = Vec::new();
    let mut i: usize = 0;
    while i < files.len()
        invariant
            i <= files@.len(),
            regex_compiles(pattern@),
            string_views(out@) == deep_matches(files@.take(i as int), pattern@),
        decreases files@.len() - i,
    {
        proof {
            assert(files@.take(i + 1).drop_last() =~= files@.take(i as int));
        }
        match regex_is_match(pattern, files[i].1.as_str()) {
            Some(true) => {
                let ghost before = string_views(out@);
                out.push(files[i].0.clone());
                proof {
                    assert(string_views(out@) =~= before.push(files@[i as int].0@));
                }
            },
            _ => {},
        }
        i = i + 1;
    }
    assert(files@.take(files@.len() as int) =~= files@);
    out
}

/// What one detector finds.
fn hit(d: &Detector, f: &SourceFacts) -> (r: Option<String>)
    requires
        detector_compiles(detector_view(*d)),
    ensures
        match r {
            Some(e) => detector_hit(detector_view(*d), *f) == Some(e@),
            None => detector_hit(detector_view(*d), *f) is None,
        },
{
    match d {
        Detector::Directory { name, evidence } => {
            if has_name(&f.dirs_with_rust, name.as_str()) {
                Some(evidence.clone())
            } else {
                None
            }
        },
        Detector::File { name, evidence } => {
            if has_name(&f.entries, name.as_str()) {
                Some(evidence.clone())
            } else {
                None
            }
        },
        Detector::MainRs { pattern, evidence } => match &f.main_rs {
            Some(t) => match regex_is_match(pattern.as_str(), t.as_str()) {
                Some(true) => Some(evidence.clone()),
                _ => None,
            },
            None => None,
        },
        Detector::Deep { pattern } => {
            let m = deep_scan(&f.rust_files, pattern.as_str());
            if m.len() > 0 {
                let mut e = chars_of("deep scan: ");
                push_decimal(&mut e, m.len() as u64);
                push_str(&mut e, " Rust file(s) with matches: ");
                let joined = join_strings(&m, ", ");
                push_str(&mut e, joined.as_str());
                Some(string_of(&e))
            } else {
                None
            }
        },
    }
}

/// Whether `d`'s pattern compiles.
fn compiles(d: &Detector) -> (r: bool)
    ensures
        r == detector_compiles(detector_view(*d)),
{
    match d {
        Detector::MainRs { pattern, .. } => regex_is_match(pattern.as_str(), "").is_some(),
        Detector::Deep { pattern } => regex_is_match(pattern.as_str(), "").is_some(),
        _ => true,
    }
}

/// What the detectors find in the sources: the evidence of the first that
/// finds anything. `None` exactly where one of their patterns does not
/// compile.
pub fn detect_with_rules(detectors: &Vec<Detector>, facts: &SourceFacts) -> (r: Option<(bool, String)>)
    ensures
        r is Some <==> (forall|i: int| 0 <= i < detectors@.len() ==> detector_compiles(#[trigger] detector_views(detectors@)[i])),
        r matches Some(x) ==> (x.0, x.1@) == detect_spec(detector_views(detectors@), *facts),
{
    let ghost dv = detector_views(detectors@);
    let mut i: usize = 0;
    while i < detectors.len()
        invariant
            i <= detectors@.len(),
            dv == detector_views(detectors@),
            forall|j: int| 0 <= j < i ==> detector_compiles(#[trigger] dv[j]),
        decreases detectors@.len() - i,
    {
        if !compiles(&detectors[i]) {
            assert(!detector_compiles(dv[i as int]));
            return None;
        }
        i = i + 1;
    }
    let mut k: usize = 0;
    assert(dv.skip(0) =~= dv);
    while k < detectors.len()
        invariant
            k <= detectors@.len(),
            dv == detector_views(detectors@),
            forall|j: int| 0 <= j < detectors@.len() ==> detector_compiles(#[trigger] dv[j]),
            detect_spec(dv.skip(k as int), *facts) == detect_spec(dv, *facts),
        decreases detectors@.len() - k,
    {
        proof {
            assert(dv.skip(k as int).drop_first() =~= dv.skip(k + 1));
            assert(dv.skip(k as int)[0] == dv[k as int]);
            assert(dv[k as int] == detector_view(detectors@[k as int]));
        }
        match hit(&detectors[k], facts) {
            Some(e) => {
                return Some((true, e));
            },
            None => {},
        }
        k = k + 1;
    }
    assert(dv.skip(k as int).len() == 0);
    Some((false, "not found in module structure or source content".to_string()))
}

fn directory(name: &str, evidence: &str) -> (d: Detector)
    ensures
        d matches Detector::Directory { name: n, evidence: e } && n@ == name@ && e@ == evidence@,
{
    Detector::Directory { name: name.to_string(), evidence: evidence.to_string() }
}

fn file(name: &str, evidence: &str) -> (d: Detector)
    ensures
        d matches Detector::File { name: n, evidence: e } && n@ == name@ && e@ == evidence@,
{
    Detector::File { name: name.to_string(), evidence: evidence.to_string() }
}

fn main_rs(pattern: &str, evidence: &str) -> (d: Detector)
    ensures
        d matches Detector::MainRs { pattern: p, evidence: e } && p@ == pattern@ && e@ == evidence@,
{
    Detector::MainRs { pattern: pattern.to_string(), evidence: evidence.to_string() }
}

fn deep(pattern: &str) -> (d: Detector)
    ensures
        d matches Detector::Deep { pattern: p } && p@ == pattern@,
{
    Detector::Deep { pattern: pattern.to_string() }
}

/// The detectors of each single strategy, as plain values.
pub open spec fn strategy_detectors(strategy: Seq<char>) -> Option<Seq<(nat, Seq<char>, Seq<char>)>> {
    if strategy == "checkpoint"@ {
        Some(seq![
            (0, "checkpoint"@, "checkpoint/ module found"@),
            (2, "mod\\s+checkpoint"@, "mod checkpoint declared in main.rs"@),
            (2, "checkpoint"@, "checkpoint references found in main.rs"@),
            (3, "\\bcheckpoint\\b"@, Seq::empty()),
        ])
    } else if strategy == "dedupe"@ {
        Some(seq![
            (0, "dedupe"@, "dedupe/ module found"@),
            (2, "mod\\s+dedupe"@, "mod dedupe declared in main.rs"@),
            (2, "\\b(dedupe|dedup)\\b"@, "dedupe/dedup references found in main.rs"@),
            (3, "\\b(dedupe|dedup)\\b"@, Seq::empty()),
        ])
    } else if strategy == "idempotency"@ {
        Some(seq![
            (0, "idempotency"@, "idempotency/ module found"@),
            (1, "idempotent.rs"@, "idempotent.rs found"@),
            (2, "mod\\s+idempoten"@, "idempotency module declared in main.rs"@),
            (2, "\\b(idempoten|idempotency_key|idempotent)\\b"@, "idempotency references found in main.rs"@),
            (3, "\\b(idempoten|idempotency_key|idempotent)\\b"@, Seq::empty()),
        ])
    } else if strategy == "retry_policy"@ {
        Some(seq![
            (0, "retry"@, "retry/ module found"@),
            (2, "mod\\s+retry"@, "mod retry declared in main.rs"@),
            (2, "\\b(retry_policy|retry_count|ExponentialBackoff|retry\\b)"@, "retry references found in main.rs"@),
            (3, "\\b(retry_policy|retry_count|ExponentialBackoff|retry\\b)"@, Seq::empty()),
        ])
    } else if strategy == "replay_strategy"@ {
        Some(seq![
            (0, "replay"@, "replay/ module found"@),
            (2, "mod\\s+replay"@, "mod replay declared in main.rs"@),
            (2, "\\breplay"@, "replay references found in main.rs"@),
            (3, "\\breplay\\b"@, Seq::empty()),
        ])
    } else if strategy == "conflict_strategy"@ {
        Some(seq![
            (0, "conflict"@, "conflict/ module found"@),
            (2, "mod\\s+conflict"@, "mod conflict declared in main.rs"@),
            (2, "\\bconflict"@, "conflict references found in main.rs"@),
            (3, "\\bconflict\\b"@, Seq::empty()),
        ])
    } else if strategy == "compensation_strategy"@ {
        Some(seq![
            (0, "compensation"@, "compensation/ module found"@),
            (1, "saga.rs"@, "saga.rs found"@),
            (2, "mod\\s+compensation"@, "mod compensation declared in main.rs"@),
            (2, "\\b(compensation|compensate|saga)\\b"@, "compensation/saga references found in main.rs"@),
            (3, "\\b(compensation|compensate|saga)\\b"@, Seq::empty()),
        ])
    } else {
        None
    }
}

/// The detectors of a single strategy; `None` for a composite or unknown one.
pub fn detectors_for(strategy: &str) -> (r: Option<Vec<Detector>>)
    ensures
        match r {
            Some(v) => strategy_detectors(strategy@) == Some(detector_views(v@)),
            None => strategy_detectors(strategy@) is None,
        },
{
    let s = chars_of(strategy);
    let mut v: Vec<Detector> = Vec::new();
    if same_chars(&s, &chars_of("checkpoint")) {
        v.push(directory("checkpoint", "checkpoint/ module found"));
        v.push(main_rs(r"mod\s+checkpoint", "mod checkpoint declared in main.rs"));
        v.push(main_rs(r"checkpoint", "checkpoint references found in main.rs"));
        v.push(deep(r"\bcheckpoint\b"));
    } else if same_chars(&s, &chars_of("dedupe")) {
        v.push(directory("dedupe", "dedupe/ module found"));
        v.push(main_rs(r"mod\s+dedupe", "mod dedupe declared in main.rs"));
        v.push(main_rs(r"\b(dedupe|dedup)\b", "dedupe/dedup references found in main.rs"));
        v.push(deep(r"\b(dedupe|dedup)\b"));
    } else if same_chars(&s, &chars_of("idempotency")) {
        v.push(directory("idempotency", "idempotency/ module found"));
        v.push(file("idempotent.rs", "idempotent.rs found"));
        v.push(main_rs(r"mod\s+idempoten", "idempotency module declared in main.rs"));
        v.push(main_rs(r"\b(idempoten|idempotency_key|idempotent)\b", "idempotency references found in main.rs"));
        v.push(deep(r"\b(idempoten|idempotency_key|idempotent)\b"));
    } else if same_chars(&s, &chars_of("retry_policy")) {
        v.push(directory("retry", "retry/ module found"));
        v.push(main_rs(r"mod\s+retry", "mod retry declared in main.rs"));
        v.push(main_rs(r"\b(retry_policy|retry_count|ExponentialBackoff|retry\b)", "retry references found in main.rs"));
        v.push(deep(r"\b(retry_policy|retry_count|ExponentialBackoff|retry\b)"));
    } else if same_chars(&s, &chars_of("replay_strategy")) {
        v.push(directory("replay", "replay/ module found"));
        v.push(main_rs(r"mod\s+replay", "mod replay declared in main.rs"));
        v.push(main_rs(r"\breplay", "replay references found in main.rs"));
        v.push(deep(r"\breplay\b"));
    } else if same_chars(&s, &chars_of("conflict_strategy")) {
        v.push(directory("conflict", "conflict/ module found"));
        v.push(main_rs(r"mod\s+conflict", "mod conflict declared in main.rs"));
        v.push(main_rs(r"\bconflict", "conflict references found in main.rs"));
        v.push(deep(r"\bconflict\b"));
    } else if same_chars(&s, &chars_of("compensation_strategy")) {
        v.push(directory("compensation", "compensation/ module found"));
        v.push(file("saga.rs", "saga.rs found"));
        v.push(main_rs(r"mod\s+compensation", "mod compensation declared in main.rs"));
        v.push(main_rs(r"\b(compensation|compensate|saga)\b", "compensation/saga references found in main.rs"));
        v.push(deep(r"\b(compensation|compensate|saga)\b"));
    } else {
        return None;
    }
    assert(strategy_detectors(strategy@) =~~= Some(detector_views(v@)));
    Some(v)
}

/// `ok` or `missing`.
pub open spec fn present_text(present: bool) -> Seq<char> {
    if present {
        "ok"@
    } else {
        "missing"@
    }
}

/// `ok` for a present strategy, `missing` otherwise.
pub fn present_label(present: bool) -> (r: &'static str)
    ensures
        r@ == present_text(present),
{
    if present {
        "ok"
    } else {
        "missing"
    }
}

/// A composite strategy: dedupe or checkpoint-based resume.
pub open spec fn is_composite(strategy: Seq<char>) -> bool {
    strategy == "dedupe_or_resume_strategy"@ || strategy == "dedupe_or_resume"@
}

/// The evidence line of the composite strategy.
pub open spec fn composite_evidence(a: (bool, Seq<char>), b: (bool, Seq<char>)) -> Seq<char> {
    "dedupe: "@ + present_text(a.0) + " "@ + a.1 + " | checkpoint: "@ + present_text(b.0) + " "@ + b.1
}

/// The detection of a strategy: present and evidence.
pub open spec fn strategy_detection(facts: SourceFacts, strategy: Seq<char>) -> (bool, Seq<char>) {
    if is_composite(strategy) {
        let a = single_detection(facts, "dedupe"@);
        let b = single_detection(facts, "checkpoint"@);
        (a.0 || b.0, composite_evidence(a, b))
    } else if strategy_detectors(strategy) is Some {
        single_detection(facts, strategy)
    } else {
        (false, "unknown strategy: "@ + strategy)
    }
}

/// The detectors of a known single strategy all compile (trivially true of
/// an unknown one).
pub open spec fn detectors_compile(strategy: Seq<char>) -> bool {
    match strategy_detectors(strategy) {
        Some(ds) => forall|i: int| 0 <= i < ds.len() ==> detector_compiles(#[trigger] ds[i]),
        None => true,
    }
}

/// Every pattern that detecting `strategy` uses compiles.
pub open spec fn strategy_compiles(strategy: Seq<char>) -> bool {
    if is_composite(strategy) {
        detectors_compile("dedupe"@) && detectors_compile("checkpoint"@)
    } else {
        detectors_compile(strategy)
    }
}

/// Detects a strategy in a worker's sources: whether it is present and the
/// evidence. The composite strategy is present when dedupe or checkpoint is;
/// an unknown strategy is absent. `None` where a detector's pattern does not
/// compile.
pub fn detect_strategy(facts: &SourceFacts, strategy: &str) -> (r: Option<(bool, String)>)
    ensures
        r is Some <==> strategy_compiles(strategy@),
        r matches Some(x) ==> (x.0, x.1@) == strategy_detection(*facts, strategy@),
{
    let s = chars_of(strategy);
    if same_chars(&s, &chars_of("dedupe_or_resume_strategy")) || same_chars(&s, &chars_of("dedupe_or_resume")) {
        let a = detect_single(facts, "dedupe")?;
        let b = detect_single(facts, "checkpoint")?;
        let mut e = chars_of("dedupe: ");
        push_str(&mut e, present_label(a.0));
        push_str(&mut e, " ");
        push_str(&mut e, a.1.as_str());
        push_str(&mut e, " | checkpoint: ");
        push_str(&mut e, present_label(b.0));
        push_str(&mut e, " ");
        push_str(&mut e, b.1.as_str());
        let r = (a.0 || b.0, string_of(&e));
        return Some(r);
    }
    match detectors_for(strategy) {
        Some(_) => detect_single(facts, strategy),
        None => {
            let mut e = chars_of("unknown strategy: ");
            push_str(&mut e, strategy);
            Some((false, string_of(&e)))
        },
    }
}

/// The detection of a single strategy by its detectors.
pub open spec fn single_detection(facts: SourceFacts, strategy: Seq<char>) -> (bool, Seq<char>) {
    match strategy_detectors(strategy) {
        Some(ds) => detect_spec(ds, facts),
        None => (false, Seq::empty()),
    }
}

/// Detection of a single, known strategy.
fn detect_single(facts: &SourceFacts, strategy: &str) -> (r: Option<(bool, String)>)
    ensures
        r is Some <==> strategy_detectors(strategy@) is Some && detectors_compile(strategy@),
        r matches Some(x) ==> strategy_detectors(strategy@) is Some && (x.0, x.1@) == single_detection(*facts, strategy@),
{
    let ds = detectors_for(strategy)?;
    let r = detect_with_rules(&ds, facts);
    proof {
        let dv = detector_views(ds@);
        assert(dv.len() == ds@.len());
        assert(strategy_detectors(strategy@) == Some(dv));
        if r is Some {
            assert forall|i: int| 0 <= i < dv.len() implies detector_compiles(#[trigger] dv[i]) by {
                assert(detector_compiles(detector_views(ds@)[i]));
            }
            assert(detectors_compile(strategy@));
        } else {
            let i = choose|i: int| 0 <= i < ds@.len() && !detector_compiles(#[trigger] detector_views(ds@)[i]);
            let ds2 = strategy_detectors(strategy@)->Some_0;
            assert(ds2 == dv);
            assert(!detector_compiles(ds2[i]));
            assert(!detectors_compile(strategy@));
        }
    }
    r
}

// ---------------------------------------------------------------------------
// Workers
// ---------------------------------------------------------------------------

/// A worker as the code map declares it.
#[derive(Debug, Clone)]
pub struct WorkerDeclaration {
    pub name: String,
    pub path: String,
    pub status: Option<String>,
    pub notes: Option<String>,
    pub must_have: Vec<String>,
}

/// A worker that is only planned: status `planned`, or notes that say it is
/// not implemented yet or a placeholder.
pub open spec fn planned(status: Option<Seq<char>>, notes: Option<Seq<char>>) -> bool {
    let s = match status { Some(x) => x, None => Seq::empty() };
    let n = match notes { Some(x) => x, None => Seq::empty() };
    s == "planned"@ || contains(n, "尚未实现"@) || contains(n, "占位"@)
}

/// Optional string as plain value.
pub open spec fn opt_view(o: Option<String>) -> Option<Seq<char>> {
    match o {
        Some(s) => Some(s@),
        None => None,
    }
}

/// Whether the worker is only planned.
pub fn is_planned_worker(worker: &WorkerDeclaration) -> (r: bool)
    ensures
        r == planned(opt_view(worker.status), opt_view(worker.notes)),
{
    let status = match &worker.status {
        Some(x) => chars_of(x.as_str()),
        None => Vec::new(),
    };
    let notes = match &worker.notes {
        Some(x) => chars_of(x.as_str()),
        None => Vec::new(),
    };
    same_chars(&status, &chars_of("planned")) || contains_chars(&notes, &chars_of("尚未实现"))
        || contains_chars(&notes, &chars_of("占位"))
}

/// Errors in strict mode, warnings otherwise.
pub open spec fn severity_for(mode: Mode) -> Severity {
    if mode == Mode::Strict {
        Severity::Error
    } else {
        Severity::Warn
    }
}

/// The severity of resilience findings in `mode`.
pub fn issue_severity(mode: Mode) -> (s: Severity)
    ensures
        s == severity_for(mode),
{
    if mode.is_strict() {
        Severity::Error
    } else {
        Severity::Warn
    }
}

/// One strategy checked for one worker.
#[derive(Debug, Clone)]
pub struct ResilienceCheck {
    pub worker_name: String,
    pub strategy: String,
    pub present: bool,
    pub evidence: String,
}

/// What the review of one worker found.
#[derive(Debug, Clone)]
pub enum WorkerReview {
    /// Only planned; skipped.
    Planned,
    /// Its directory is missing.
    MissingDirectory(Issue),
    /// Its `src/` is missing.
    MissingSource(Issue),
    /// It declares no required strategy.
    NoStrategies,
    /// Its strategies were checked; an issue for each missing one.
    Checked { checks: Vec<ResilienceCheck>, issues: Vec<Issue> },
}

/// Whether an issue has the given severity, scope and message.
pub open spec fn issue_is(i: Issue, sev: Severity, scope: Seq<char>, message: Seq<char>) -> bool {
    i.severity == sev && i.scope@ == scope && i.message@ == message
}

/// The missing-strategy issues of the checks, in order.
pub open spec fn missing_strategy_messages(checks: Seq<ResilienceCheck>) -> Seq<(Seq<char>, Seq<char>)>
    decreases checks.len(),
{
    if checks.len() == 0 {
        Seq::empty()
    } else {
        let rest = missing_strategy_messages(checks.drop_last());
        let c = checks.last();
        if c.present {
            rest
        } else {
            rest.push((c.worker_name@ + "/"@ + c.strategy@, "missing required resilience strategy: "@ + c.strategy@ + " - "@ + c.evidence@))
        }
    }
}

/// Reviews one worker: skipped when planned; a finding when its directory or
/// its `src/` is missing (`src` is `None` then); otherwise each required
/// strategy is detected in its sources. `None` where a detector's pattern
/// does not compile.
pub fn review_worker(worker: &WorkerDeclaration, dir_exists: bool, src: &Option<SourceFacts>, mode: Mode) -> (r: Option<WorkerReview>)
    ensures
        r is None <==> !planned(opt_view(worker.status), opt_view(worker.notes)) && dir_exists && src is Some
            && exists|k: int| 0 <= k < worker.must_have@.len() && !strategy_compiles(#[trigger] worker.must_have@[k]@),
        r matches Some(review) ==> {
            let sev = severity_for(mode);
            if planned(opt_view(worker.status), opt_view(worker.notes)) {
                review is Planned
            } else if !dir_exists {
                review matches WorkerReview::MissingDirectory(i) && issue_is(i, sev, worker.name@ + "/(directory)"@, "worker directory does not exist: "@ + worker.path@)
            } else if src is None {
                review matches WorkerReview::MissingSource(i) && issue_is(i, sev, worker.name@ + "/(src)"@, "src directory missing for "@ + worker.path@)
            } else if worker.must_have@.len() == 0 {
                review is NoStrategies
            } else {
                review matches WorkerReview::Checked { checks, issues } && {
                    &&& checks@.len() == worker.must_have@.len()
                    &&& forall|k: int| 0 <= k < checks@.len() ==> {
                        &&& (#[trigger] checks@[k]).worker_name@ == worker.name@
                        &&& checks@[k].strategy@ == worker.must_have@[k]@
                        &&& (checks@[k].present, checks@[k].evidence@) == strategy_detection(src->Some_0, worker.must_have@[k]@)
                    }
                    &&& issues@.len() == missing_strategy_messages(checks@).len()
                    &&& forall|k: int| 0 <= k < issues@.len() ==> issue_is(#[trigger] issues@[k], sev, missing_strategy_messages(checks@)[k].0, missing_strategy_messages(checks@)[k].1)
                }
            }
        },
{
    let sev = issue_severity(mode);
    if is_planned_worker(worker) {
        return Some(WorkerReview::Planned);
    }
    if !dir_exists {
        let mut scope = chars_of(worker.name.as_str());
        push_str(&mut scope, "/(directory)");
        let mut m = chars_of("worker directory does not exist: ");
        push_str(&mut m, worker.path.as_str());
        return Some(WorkerReview::MissingDirectory(Issue::new(sev, string_of(&scope), string_of(&m))));
    }
    let facts = match src {
        Some(f) => f,
        None => {
            let mut scope = chars_of(worker.name.as_str());
            push_str(&mut scope, "/(src)");
            let mut m = chars_of("src directory missing for ");
            push_str(&mut m, worker.path.as_str());
            return Some(WorkerReview::MissingSource(Issue::new(sev, string_of(&scope), string_of(&m))));
        },
    };
    if worker.must_have.len() == 0 {
        return Some(WorkerReview::NoStrategies);
    }
    let mut checks: Vec<ResilienceCheck> = Vec::new();
    let mut issues: Vec<Issue> = Vec::new();
    let mut i: usize = 0;
    while i < worker.must_have.len()
        invariant
            i <= worker.must_have@.len(),
            sev == severity_for(mode),
            checks@.len() == i,
            forall|k: int| 0 <= k < i ==> {
                &&& (#[trigger] checks@[k]).worker_name@ == worker.name@
                &&& checks@[k].strategy@ == worker.must_have@[k]@
                &&& (checks@[k].present, checks@[k].evidence@) == strategy_detection(*facts, worker.must_have@[k]@)
            },
            issues@.len() == missing_strategy_messages(checks@).len(),
            forall|k: int| 0 <= k < issues@.len() ==> issue_is(#[trigger] issues@[k], sev, missing_strategy_messages(checks@)[k].0, missing_strategy_messages(checks@)[k].1),
            forall|k: int| 0 <= k < i ==> strategy_compiles(#[trigger] worker.must_have@[k]@),
            !planned(opt_view(worker.status), opt_view(worker.notes)),
            dir_exists,
            src is Some,
        decreases worker.must_have@.len() - i,
    {
        let strategy = worker.must_have[i].as_str();
        let (present, evidence) = match detect_strategy(facts, strategy) {
            Some(d) => d,
            None => {
                assert(!strategy_compiles(worker.must_have@[i as int]@));
                return None;
            },
        };
        let ghost old_checks = checks@;
        let ghost old_issues = issues@;
        if !present {
            let mut scope = chars_of(worker.name.as_str());
            push_str(&mut scope, "/");
            push_str(&mut scope, strategy);
            let mut m = chars_of("missing required resilience strategy: ");
            push_str(&mut m, strategy);
            push_str(&mut m, " - ");
            push_str(&mut m, evidence.as_str());
            issues.push(Issue::new(sev, string_of(&scope), string_of(&m)));
        }
        checks.push(ResilienceCheck { worker_name: worker.name.clone(), strategy: strategy.to_string(), present, evidence });
        proof {
            assert(checks@.drop_last() =~= old_checks);
            assert forall|k: int| 0 <= k < issues@.len() implies issue_is(#[trigger] issues@[k], sev, missing_strategy_messages(checks@)[k].0, missing_strategy_messages(checks@)[k].1) by {
                if k < old_issues.len() {
                    assert(issues@[k] == old_issues[k]);
                }
            }
        }
        i = i + 1;
    }
    Some(WorkerReview::Checked { checks, issues })
}

} // verus!
