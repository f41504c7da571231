use axum_harness::existence::{existence_findings, is_exempt, module_kind, required_path, DeclaredModule};

#[test]
fn module_kinds_come_from_group_names() {
    assert_eq!(module_kind("services"), Some("service"));
    assert_eq!(module_kind("servers"), Some("server"));
    assert_eq!(module_kind("workerss"), Some("worker"));
    assert_eq!(module_kind("packages"), None);
}

#[test]
fn planned_and_placeholder_modules_are_exempt() {
    assert!(is_exempt("planned", ""));
    assert!(is_exempt("active", "尚未实现"));
    assert!(is_exempt("", "仅保留语义边界"));
    assert!(!is_exempt("active", "ready"));
}

#[test]
fn required_paths_substitute_the_module_name() {
    assert_eq!(required_path("src/bin/<name>.rs", "projector"), "src/bin/projector.rs");
    assert_eq!(required_path("Cargo.toml", "projector"), "Cargo.toml");
}

#[test]
fn existence_findings_cover_declared_and_found_modules() {
    let declared = vec![
        DeclaredModule { path: "services/a".into(), status: "active".into(), notes: "".into(), exists: false, required: vec![] },
        DeclaredModule {
            path: "services/b".into(),
            status: "active".into(),
            notes: "".into(),
            exists: true,
            required: vec![("Cargo.toml".into(), true), ("src/lib.rs".into(), false)],
        },
        DeclaredModule { path: "services/c".into(), status: "planned".into(), notes: "".into(), exists: false, required: vec![] },
    ];
    let found = vec!["services/b".to_string(), "services/d".to_string()];
    let got: Vec<(bool, String, String)> = existence_findings(&declared, &found, true).into_iter().map(|f| (f.error, f.scope, f.message)).collect();
    assert_eq!(
        got,
        vec![
            (true, "services/a".to_string(), "declared in codemap but directory does not exist".to_string()),
            (true, "services/b".to_string(), "missing required path: src/lib.rs".to_string()),
            (false, "services/d".to_string(), "exists in repository but is not declared in agent/codemap.yml".to_string()),
        ]
    );
}
