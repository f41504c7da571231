use axum_harness::git::{parse_git_status_paths, paths_if_present, CommandOutcome};

#[test]
fn parse_git_status_paths_reports_tracked_and_untracked_files() {
    let output = " M packages/contracts/generated/openapi/web-bff.openapi.yaml\n?? packages/contracts/generated/openapi/extra.openapi.yaml\nR  old/path.yaml -> packages/contracts/generated/openapi/renamed.openapi.yaml";

    assert_eq!(
        parse_git_status_paths(output),
        vec![
            "packages/contracts/generated/openapi/extra.openapi.yaml".to_string(),
            "packages/contracts/generated/openapi/renamed.openapi.yaml".to_string(),
            "packages/contracts/generated/openapi/web-bff.openapi.yaml".to_string(),
        ]
    );
}

#[test]
fn status_paths_are_sorted_and_deduplicated() {
    let output = " M b.txt\n M a.txt\n?? b.txt\n";
    assert_eq!(
        parse_git_status_paths(output),
        vec!["a.txt".to_string(), "b.txt".to_string()]
    );
}

#[test]
fn status_lines_without_path_are_ignored() {
    assert_eq!(parse_git_status_paths(""), Vec::<String>::new());
    assert_eq!(parse_git_status_paths(" M\n??   \n"), Vec::<String>::new());
}

#[test]
fn failed_status_command_yields_no_paths() {
    let failed = CommandOutcome {
        success: false,
        output: " M a.txt".to_string(),
        error: "fatal".to_string(),
        exit_code: 128,
    };
    assert_eq!(paths_if_present(&failed, false), None);
}
