use axum_harness::report::{Mode, Severity};
use axum_harness::resilience::{
    detect_strategy, detectors_for, is_planned_worker, issue_severity, present_label,
    review_worker, SourceFacts, WorkerDeclaration, WorkerReview,
};

fn facts(dirs: &[&str], entries: &[&str], main: Option<&str>, files: &[(&str, &str)]) -> SourceFacts {
    SourceFacts {
        dirs_with_rust: dirs.iter().map(|s| s.to_string()).collect(),
        entries: entries.iter().map(|s| s.to_string()).collect(),
        main_rs: main.map(String::from),
        rust_files: files.iter().map(|(a, b)| (a.to_string(), b.to_string())).collect(),
    }
}

#[test]
fn strategies_are_found_by_module_file_main_or_deep_scan() {
    let f = facts(&["checkpoint"], &["saga.rs"], Some("mod retry;"), &[("lib.rs", "fn replay() {}"), ("a/b.rs", "// replay here")]);
    assert_eq!(detect_strategy(&f, "checkpoint"), Some((true, "checkpoint/ module found".to_string())));
    assert_eq!(detect_strategy(&f, "compensation_strategy"), Some((true, "saga.rs found".to_string())));
    assert_eq!(detect_strategy(&f, "retry_policy"), Some((true, "mod retry declared in main.rs".to_string())));
    assert_eq!(
        detect_strategy(&f, "replay_strategy"),
        Some((true, "deep scan: 2 Rust file(s) with matches: lib.rs, a/b.rs".to_string()))
    );
    assert_eq!(
        detect_strategy(&f, "idempotency"),
        Some((false, "not found in module structure or source content".to_string()))
    );
}

#[test]
fn composite_and_unknown_strategies() {
    let f = facts(&[], &[], None, &[("x.rs", "let dedup = true;")]);
    assert_eq!(
        detect_strategy(&f, "dedupe_or_resume"),
        Some((true, "dedupe: ok deep scan: 1 Rust file(s) with matches: x.rs | checkpoint: missing not found in module structure or source content".to_string()))
    );
    assert_eq!(detect_strategy(&f, "magic"), Some((false, "unknown strategy: magic".to_string())));
    assert!(detectors_for("magic").is_none());
    assert_eq!(detectors_for("idempotency").unwrap().len(), 5);
}

#[test]
fn worker_status_helpers() {
    assert_eq!(present_label(true), "ok");
    assert_eq!(present_label(false), "missing");
    assert_eq!(issue_severity(Mode::Strict), Severity::Error);
    assert_eq!(issue_severity(Mode::Warn), Severity::Warn);
    let planned = WorkerDeclaration { name: "w".into(), path: "workers/w".into(), status: Some("planned".into()), notes: None, must_have: vec![] };
    assert!(is_planned_worker(&planned));
    let placeholder = WorkerDeclaration { name: "w".into(), path: "workers/w".into(), status: None, notes: Some("占位 only".into()), must_have: vec![] };
    assert!(is_planned_worker(&placeholder));
}

#[test]
fn worker_reviews_report_missing_parts_and_strategies() {
    let w = WorkerDeclaration {
        name: "projector".into(),
        path: "workers/projector".into(),
        status: None,
        notes: None,
        must_have: vec!["checkpoint".into(), "retry_policy".into()],
    };
    match review_worker(&w, false, &None, Mode::Strict).unwrap() {
        WorkerReview::MissingDirectory(i) => {
            assert_eq!(i.scope, "projector/(directory)");
            assert_eq!(i.message, "worker directory does not exist: workers/projector");
            assert_eq!(i.severity, Severity::Error);
        }
        other => panic!("unexpected {:?}", other),
    }
    match review_worker(&w, true, &None, Mode::Warn).unwrap() {
        WorkerReview::MissingSource(i) => assert_eq!(i.message, "src directory missing for workers/projector"),
        other => panic!("unexpected {:?}", other),
    }
    let f = facts(&["checkpoint"], &[], None, &[]);
    match review_worker(&w, true, &Some(f), Mode::Warn).unwrap() {
        WorkerReview::Checked { checks, issues } => {
            assert_eq!(checks.len(), 2);
            assert!(checks[0].present);
            assert!(!checks[1].present);
            assert_eq!(issues.len(), 1);
            assert_eq!(issues[0].scope, "projector/retry_policy");
            assert_eq!(issues[0].message, "missing required resilience strategy: retry_policy - not found in module structure or source content");
            assert_eq!(issues[0].severity, Severity::Warn);
        }
        other => panic!("unexpected {:?}", other),
    }
}
