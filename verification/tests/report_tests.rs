use axum_harness::numtext::{decimal_of, parse_u32, parse_u64};
use axum_harness::report::{flag, issues_of, mode_header, status_code, Issue, Mode, Report, Severity};
use axum_harness::sorting::{lex_less, sort_dedup, sorted_order};
use axum_harness::text::{chars_of, split_lines, split_on, split_words, string_of, trim_chars};

fn s(v: &[char]) -> String {
    string_of(v)
}

#[test]
fn report_renders_header_issues_and_summary() {
    let mut report = Report::new("contracts".to_string(), Mode::Warn);
    report.push(Issue::error("servers/web-bff".to_string(), "missing openapi".to_string()));
    report.push(Issue::warn("packages/contracts".to_string(), "unused crate".to_string()));
    report.push(Issue::info("docs".to_string(), "fine".to_string()));
    let lines = report.render();
    assert_eq!(
        lines,
        vec![
            "=== contracts (warn) ===".to_string(),
            "[ERROR] servers/web-bff: missing openapi".to_string(),
            "[WARN] packages/contracts: unused crate".to_string(),
            "[INFO] docs: fine".to_string(),
            "Summary: 1 error(s), 1 warning(s)".to_string(),
        ]
    );
    assert_eq!(report.error_count(), 1);
    assert_eq!(report.warning_count(), 1);
    assert_eq!(report.status_code(), 1);
}

#[test]
fn empty_report_prints_only_its_header_and_passes() {
    let report = Report::new("gate".to_string(), Mode::Strict);
    assert!(report.is_empty());
    assert_eq!(report.render(), vec!["=== gate (strict) ===".to_string()]);
    assert_eq!(report.status_code(), 0);
}

#[test]
fn evidence_and_remediation_get_lines_of_their_own() {
    let mut issue = Issue::warn("a".to_string(), "b".to_string());
    issue.evidence = Some("seen here".to_string());
    issue.remediation = Some("do this".to_string());
    let mut report = Report::new("t".to_string(), Mode::Warn);
    report.extend(vec![issue]);
    assert_eq!(
        report.render(),
        vec![
            "=== t (warn) ===".to_string(),
            "[WARN] a: b".to_string(),
            "  evidence: seen here".to_string(),
            "  remediation: do this".to_string(),
            "Summary: 0 error(s), 1 warning(s)".to_string(),
        ]
    );
}

#[test]
fn warnings_fail_only_in_strict_mode() {
    assert_eq!(status_code(Mode::Warn, 0, 3), 0);
    assert_eq!(status_code(Mode::Strict, 0, 3), 1);
    assert_eq!(status_code(Mode::Warn, 2, 0), 1);
    assert_eq!(status_code(Mode::Strict, 0, 0), 0);
    let mut strict = Report::new("x".to_string(), Mode::Strict);
    strict.push(Issue::warn("s".to_string(), "m".to_string()));
    assert_eq!(strict.status_code(), 1);
    let mut warn = Report::new("x".to_string(), Mode::Warn);
    warn.push(Issue::warn("s".to_string(), "m".to_string()));
    assert_eq!(warn.status_code(), 0);
}

#[test]
fn adding_an_info_issue_keeps_the_status() {
    let mut report = Report::new("x".to_string(), Mode::Strict);
    let before = report.status_code();
    report.push(Issue::info("s".to_string(), "m".to_string()));
    assert_eq!(report.status_code(), before);
}

#[test]
fn mode_header_and_labels() {
    assert_eq!(mode_header("boundary", Mode::Strict), "=== boundary (strict) ===");
    assert_eq!(Mode::Warn.label(), "warn");
    assert!(Mode::Strict.is_strict());
    assert!(!Mode::Warn.is_strict());
}

#[test]
fn flagged_findings_become_errors_or_warnings() {
    let flagged = vec![flag(true, "a", "b"), flag(false, "c", "d")];
    let issues = issues_of(&flagged);
    assert_eq!(issues.len(), 2);
    assert_eq!(issues[0].severity, Severity::Error);
    assert_eq!(issues[0].scope, "a");
    assert_eq!(issues[1].severity, Severity::Warn);
    assert_eq!(issues[1].message, "d");
}

#[test]
fn decimal_text_round_trips() {
    assert_eq!(s(&decimal_of(0)), "0");
    assert_eq!(s(&decimal_of(40321)), "40321");
    assert_eq!(parse_u32(&chars_of("40321")), Some(40321));
    assert_eq!(parse_u32(&chars_of("4294967296")), None);
    assert_eq!(parse_u32(&chars_of("")), None);
    assert_eq!(parse_u32(&chars_of("12a")), None);
    assert_eq!(parse_u64(&chars_of("18446744073709551615")), Some(u64::MAX));
    let n: u64 = 987654321;
    assert_eq!(parse_u64(&decimal_of(n)), Some(n));
}

#[test]
fn text_splitting_and_trimming() {
    let parts: Vec<String> = split_on(&chars_of("a,,b"), ',').iter().map(|p| s(p)).collect();
    assert_eq!(parts, vec!["a", "", "b"]);
    let lines: Vec<String> = split_lines(&chars_of("one\ntwo\r\nthree\n")).iter().map(|p| s(p)).collect();
    assert_eq!(lines, vec!["one", "two", "three"]);
    let words: Vec<String> = split_words(&chars_of("  alpha  beta\tgamma ")).iter().map(|p| s(p)).collect();
    assert_eq!(words, vec!["alpha", "beta", "gamma"]);
    assert_eq!(s(&trim_chars(&chars_of("  x y \n"))), "x y");
}

#[test]
fn sorting_orders_and_dedups() {
    assert!(lex_less(&chars_of("abc"), &chars_of("abd")));
    assert!(lex_less(&chars_of("ab"), &chars_of("abc")));
    assert!(!lex_less(&chars_of("b"), &chars_of("b")));
    let sorted: Vec<String> = sort_dedup(vec![chars_of("pear"), chars_of("apple"), chars_of("pear"), chars_of("fig")])
        .iter()
        .map(|p| s(p))
        .collect();
    assert_eq!(sorted, vec!["apple", "fig", "pear"]);
    let order = sorted_order(&vec![chars_of("b"), chars_of("a"), chars_of("b"), chars_of("a")]);
    assert_eq!(order, vec![1, 3, 0, 2]);
}
