use axum_harness::template::release_anchor_removal;
use axum_harness::template::{
    backend_entry_files, forbidden_needles, latest_tag, removal_path, scan_entry_text, tag_less,
    template_plan, version_parts, BackendCoreAuditMode, TemplateInitMode, TemplateProfile,
};

#[test]
fn backend_entry_files_include_root_justfile_with_correct_case() {
    let files = backend_entry_files();

    assert!(files.contains(&"Justfile"));
    assert!(!files.contains(&"justfile"));
}

#[test]
fn backend_core_template_plan_uses_current_justfile_modules() {
    let plan = template_plan(TemplateProfile::BackendCore);

    assert!(plan.keep.contains(&"justfiles/build.just"));
    assert!(plan.keep.contains(&"justfiles/verify.just"));
    assert!(plan.keep.contains(&"tools/repo-tools/**"));
    assert!(!plan.keep.contains(&"justfiles/test.just"));
    assert!(!plan.keep.contains(&"justfiles/quality.just"));
}

#[test]
fn other_profiles_have_small_plans() {
    let research = template_plan(TemplateProfile::FullResearch);
    assert_eq!(research.keep, vec!["entire repository"]);
    assert!(research.review.is_empty() && research.remove_candidates.is_empty());
    let desktop = template_plan(TemplateProfile::BackendDesktop);
    assert_eq!(desktop.remove_candidates, vec!["agent/**", "docs/architecture/**"]);
}

#[test]
fn template_labels() {
    assert_eq!(TemplateProfile::BackendDesktop.label(), "backend-desktop");
    assert_eq!(TemplateInitMode::DryRun.label(), "dry-run");
    assert_eq!(BackendCoreAuditMode::Strict.label(), "strict");
}

#[test]
fn removal_paths_drop_the_glob() {
    assert_eq!(removal_path("apps/**"), "apps");
    assert_eq!(removal_path("release-plz.toml"), "release-plz.toml");
}

#[test]
fn entry_scan_reports_each_needle_with_line_number() {
    assert_eq!(forbidden_needles().len(), 8);
    let findings = scan_entry_text("justfiles\\dev.just", "ok\n  run apps/web and packages/ui  \n");
    assert_eq!(findings.len(), 2);
    assert_eq!(findings[0].file, "justfiles/dev.just:2");
    assert_eq!(findings[0].needle, "apps/web");
    assert_eq!(findings[0].context, "run apps/web and packages/ui");
    assert_eq!(findings[1].needle, "packages/ui");
    assert!(scan_entry_text("Justfile", "clean\n").is_empty());
}

#[test]
fn version_parts_read_each_number() {
    assert_eq!(version_parts("v1.2.3"), vec![1, 2, 3]);
    assert_eq!(version_parts("vv10.x"), vec![10, 0]);
    assert_eq!(version_parts(""), vec![0]);
}

#[test]
fn tags_order_by_numbers_then_text() {
    assert!(tag_less("v1.9.0", "v1.10.0"));
    assert!(!tag_less("v1.10.0", "v1.9.0"));
    assert!(tag_less("1.0.0", "v1.0.0"));
}

#[test]
fn latest_tag_picks_the_highest_version() {
    assert_eq!(latest_tag("v1.2.0\n v1.10.0 \n\nv1.9.9\n"), Some("v1.10.0".to_string()));
    assert_eq!(latest_tag("\n  \n"), None);
}

#[test]
fn release_anchor_is_removed_from_root_manifest() {
    assert_eq!(release_anchor_removal("[workspace]\nmembers = []\n"), Some(None));
    assert_eq!(
        release_anchor_removal("[package]\nname = \"axum-harness\"\nversion = \"0.1.0\"\n"),
        Some(None)
    );
    let manifest = "[package]\nname = \"axum-harness\"\nversion = \"0.1.0\"\n\n[workspace]\nmembers = []\n\n[lib]\npath = \"tools/repo-release/src/lib.rs\"\n\n[lints]\nworkspace = true\n";
    assert_eq!(
        release_anchor_removal(manifest),
        Some(Some("[workspace]\nmembers = []\n\n".to_string()))
    );
}
