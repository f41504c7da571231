use axum_harness::pattern::{
    contains_unsafe_code, except_path, pattern_matches, same_module, scan_unsafe_code,
    strip_rust_comments,
};

#[test]
fn matches_recursive_patterns() {
    assert!(pattern_matches("services/counter-service", "services/**"));
    assert!(pattern_matches(
        "services/counter-service/src",
        "services/**"
    ));
    assert!(!pattern_matches("servers/web-bff", "services/**"));
}

#[test]
fn matches_single_segment_patterns() {
    assert!(pattern_matches("services/counter-service", "services/*"));
    assert!(!pattern_matches(
        "services/counter-service/src",
        "services/*"
    ));
}

#[test]
fn detects_same_top_level_module() {
    assert!(same_module(
        "services/counter-service",
        "services/counter-service/src"
    ));
    assert!(!same_module(
        "services/counter-service",
        "services/auth-service"
    ));
}

#[test]
fn matches_source_target_exceptions() {
    let exceptions = vec!["services/**:packages/contracts/**".to_string()];
    assert!(except_path(
        "services/counter-service",
        "packages/contracts/api",
        &exceptions
    ));
    assert!(!except_path(
        "services/counter-service",
        "servers/web-bff",
        &exceptions
    ));
}

#[test]
fn recursive_pattern_matches_its_own_base() {
    assert!(pattern_matches("services", "services/**"));
    assert!(!pattern_matches("services-extra", "services/**"));
}

#[test]
fn single_segment_pattern_rejects_base_and_trailing_slash() {
    assert!(!pattern_matches("services", "services/*"));
    assert!(!pattern_matches("services/", "services/*"));
}

#[test]
fn exact_pattern_needs_identical_path() {
    assert!(pattern_matches("Cargo.toml", "Cargo.toml"));
    assert!(!pattern_matches("Cargo.toml.bak", "Cargo.toml"));
}

#[test]
fn bare_exception_allows_every_target() {
    let exceptions = vec!["services/**".to_string()];
    assert!(except_path("services/a", "anything/else", &exceptions));
    assert!(!except_path("servers/a", "anything/else", &exceptions));
}

#[test]
fn same_module_needs_two_segments() {
    assert!(!same_module("services", "services"));
    assert!(same_module("a/b", "a/b/c/d"));
}

#[test]
fn unsafe_marker_detection_ignores_comments() {
    let content = r#"
            // unsafe fn commented_out() {}
            /* unsafe { commented_out(); } */
            fn safe() {}
        "#;

    assert!(!contains_unsafe_code(content));
}

#[test]
fn unsafe_marker_detection_finds_production_markers() {
    assert!(contains_unsafe_code("unsafe fn call() {}"));
    assert!(contains_unsafe_code("unsafe impl Send for Worker {}"));
    assert!(contains_unsafe_code("fn call() { unsafe { ffi(); } }"));
    assert!(contains_unsafe_code("#[unsafe(no_mangle)] fn entry() {}"));
}

#[test]
fn comment_stripping_removes_block_and_line_comments() {
    let stripped = strip_rust_comments("a /* b */ c\n  // d\ne").unwrap();
    assert_eq!(stripped, "a  c\n\ne");
}

#[test]
fn scan_reports_markers_when_patterns_compile() {
    assert_eq!(scan_unsafe_code("unsafe fn f() {}"), Some(true));
    assert_eq!(scan_unsafe_code("fn f() {}\n    // unsafe fn"), Some(false));
    // A comment that trails code on its line is kept by the line pattern.
    assert_eq!(scan_unsafe_code("fn f() {} // unsafe fn"), Some(true));
}

#[test]
fn recursive_patterns_cover_single_segment_ones() {
    for target in ["services/a", "services/b/c", "services", "servers/x"] {
        if pattern_matches(target, "services/*") {
            assert!(pattern_matches(target, "services/**"));
        }
    }
    assert!(pattern_matches("services", "services/**"));
    assert!(!pattern_matches("services", "services/*"));
    assert_eq!(
        same_module("services/a/src", "services/a"),
        same_module("services/a", "services/a/src")
    );
}
