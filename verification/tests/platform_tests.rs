use axum_harness::git::CommandOutcome;
use axum_harness::platform::{
    baseline_check, baseline_plan, categorize_directories, compare_tree, has_gen_sdk,
    inventory_names, inventory_title, should_skip_directory, BaselineCheck, BaselineStep, GoldenFile,
};

fn strings(v: &[&str]) -> Vec<String> {
    v.iter().map(|s| s.to_string()).collect()
}

#[test]
fn hidden_and_build_directories_are_skipped() {
    assert!(should_skip_directory("node_modules"));
    assert!(should_skip_directory(".git"));
    assert!(!should_skip_directory(".github"));
    assert!(!should_skip_directory("services"));
}

#[test]
fn directories_fall_into_categories() {
    let dirs = strings(&["services/tests", "services/counter-service", "agent/skills", "infra", "docs", "packages/ui/src", "services/counter-service"]);
    let cats = categorize_directories(&dirs).unwrap();
    let names: Vec<String> = cats.iter().map(|c| c.0.clone()).collect();
    assert_eq!(names, strings(&["agent", "backend", "frontend", "infra", "tests"]));
    assert_eq!(cats[1].1, strings(&["services/counter-service"]));
    assert_eq!(cats[4].1, strings(&["services/tests"]));
}

#[test]
fn inventory_lists_yaml_stems() {
    assert_eq!(inventory_title("deployables"), "Deployables defined in platform model");
    assert_eq!(inventory_title("other"), "Entries defined in platform model");
    assert_eq!(inventory_names(&strings(&["web.yaml", "a.yaml", ".yaml", "notes.md", "a.yaml"])), strings(&["a", "web"]));
}

#[test]
fn tree_comparison_reports_drift() {
    let golden = vec![
        GoldenFile { relative: "a.ts".into(), generated: true, same: true },
        GoldenFile { relative: "b.ts".into(), generated: true, same: false },
        GoldenFile { relative: "c.ts".into(), generated: false, same: false },
    ];
    let generated = vec![("a.ts".to_string(), true), ("d.ts".to_string(), false)];
    let (lines, drift) = compare_tree(&golden, &generated);
    assert!(drift);
    assert_eq!(
        lines,
        strings(&[
            "  OK: a.ts",
            "  DRIFT: b.ts differs from baseline",
            "  DRIFT: Missing generated file: c.ts",
            "  DRIFT: Extra generated file (not in baseline): d.ts",
        ])
    );
    let clean = compare_tree(&golden[..1].to_vec(), &vec![("a.ts".to_string(), true)]);
    assert!(!clean.1);
}

#[test]
fn baseline_checks_skip_in_order() {
    assert_eq!(baseline_check(false, false, 0, 0), BaselineCheck::NoSource);
    assert_eq!(baseline_check(true, false, 0, 0), BaselineCheck::NoBaseline);
    assert_eq!(baseline_check(true, true, 0, 3), BaselineCheck::EmptyBaseline);
    assert_eq!(baseline_check(true, true, 2, 0), BaselineCheck::EmptySource);
    assert_eq!(baseline_check(true, true, 2, 3), BaselineCheck::Compare);
}

#[test]
fn baseline_plan_depends_on_gen_sdk() {
    let listed = CommandOutcome { success: true, output: "Available recipes:\n    gen-sdk".into(), error: String::new(), exit_code: 0 };
    assert!(has_gen_sdk(&listed));
    let failed = CommandOutcome { success: false, output: "gen-sdk".into(), error: String::new(), exit_code: 1 };
    assert!(!has_gen_sdk(&failed));
    let with_sdk = baseline_plan(true);
    assert_eq!(with_sdk.len(), 7);
    match &with_sdk[4] {
        BaselineStep::Run { program, args, failure } => {
            assert_eq!(program, "just");
            assert_eq!(args, &strings(&["gen-sdk"]));
            assert_eq!(failure, "gen-sdk failed");
        }
        other => panic!("unexpected {:?}", other),
    }
    let without = baseline_plan(false);
    assert_eq!(without.len(), 6);
    match &without[5] {
        BaselineStep::CreateDir { baseline } => assert_eq!(baseline, "verification/golden/sdk-rust"),
        other => panic!("unexpected {:?}", other),
    }
}
