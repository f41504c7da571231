use axum_harness::tooling::{api_service_unit, auth_compose_args, auth_env_content, header_parts, journal_args, local_compose_args, log_needs_truncation, observability_compose_args, resource_kind_lines, skills_cli_args, tail_lines, version_args, AuthRequest, ComposeAction, SkillsRequest};
use axum_harness::tooling::{
    bun_program, choose_runtime, database_target, display_command, dry_run_outcome, first_line,
    format_health_body, lane_line, local_compose_base_args, migration_file_name,
    missing_tool_message, os_release_id, package_manager, parse_pid, parse_zombie_pid, port_lines,
    port_pids, sanitize_migration_name, secret_relative_path, service_unit, worker_by_name,
    workers, ContainerRuntime, KubectlDryRunMode, Operation, OperationPhase, RuntimeChoice, Tool,
};

#[test]
fn bun_program_uses_platform_specific_name() {
    if std::path::MAIN_SEPARATOR == '\\' {
        assert_eq!(bun_program(true), "bun.cmd");
    } else {
        assert_eq!(bun_program(false), "bun");
    }
}

#[test]
fn bun_program_names_for_both_platforms() {
    assert_eq!(bun_program(true), "bun.cmd");
    assert_eq!(bun_program(false), "bun");
}

#[test]
fn first_line_falls_back_for_empty_output() {
    assert_eq!(first_line(""), "installed");
    assert_eq!(first_line("bun 1.3.12\nextra"), "bun 1.3.12");
}

#[test]
fn lane_lines_show_pass_and_fail() {
    assert_eq!(lane_line("unit", 0), "[PASS] unit (exit 0)");
    assert_eq!(lane_line("e2e", -2), "[FAIL] e2e (exit -2)");
}

#[test]
fn tool_binaries_and_runtime_labels() {
    assert_eq!(Tool::Kubectl.binary(), "kubectl");
    assert_eq!(Tool::K3s.binary(), "k3s");
    assert_eq!(ContainerRuntime::Podman.binary(), "podman");
    assert_eq!(ContainerRuntime::Docker.label(), "docker compose");
    assert_eq!(KubectlDryRunMode::Server.arg(), "--dry-run=server");
    assert_eq!(missing_tool_message("sops", "mise install"), "missing tool 'sops'. install hint: mise install");
}

#[test]
fn runtime_choice_prefers_request_then_docker_then_podman() {
    assert_eq!(choose_runtime(Some(ContainerRuntime::Podman), true, true, true), RuntimeChoice::Requested(ContainerRuntime::Podman));
    assert_eq!(choose_runtime(Some(ContainerRuntime::Docker), false, true, true), RuntimeChoice::RequestedMissing(ContainerRuntime::Docker));
    assert_eq!(choose_runtime(None, false, true, true), RuntimeChoice::Docker);
    assert_eq!(choose_runtime(None, false, false, true), RuntimeChoice::PodmanFallback);
    assert_eq!(choose_runtime(None, false, false, false), RuntimeChoice::Missing);
}

#[test]
fn compose_arguments_list_profiles_then_file() {
    assert_eq!(
        local_compose_base_args(vec!["db".to_string(), "cache".to_string()]),
        vec!["compose", "--profile", "db", "--profile", "cache", "-f", "infra/docker/compose/core.yaml", "-p", "tauri-sveltekit-dev"]
            .into_iter()
            .map(String::from)
            .collect::<Vec<_>>()
    );
}

#[test]
fn operation_phase_lines() {
    let op = Operation::new("dev-migration-create", true);
    assert!(op.is_apply());
    assert_eq!(OperationPhase::Preflight.label(), "preflight");
    assert_eq!(op.phase_line(OperationPhase::Plan, "prepare"), "[dev-migration-create:plan] prepare");
}

#[test]
fn commands_display_with_their_arguments() {
    assert_eq!(display_command("git", &Vec::new()), "git");
    assert_eq!(display_command("git", &vec!["status".to_string(), "-s".to_string()]), "git status -s");
    let outcome = dry_run_outcome("just", &vec!["verify".to_string()]);
    assert!(outcome.success);
    assert_eq!(outcome.output, "DRY-RUN: just verify");
    assert_eq!(outcome.exit_code, 0);
}

#[test]
fn workers_resolve_by_package_or_binary() {
    assert_eq!(workers().len(), 5);
    let w = worker_by_name("projector").unwrap();
    assert_eq!(w.port, 3032);
    assert_eq!(w.binary(), "projector-worker");
    assert_eq!(worker_by_name("indexer-worker").unwrap().package, "indexer");
    assert!(worker_by_name("unknown").is_none());
    assert_eq!(w.pid_file(), "projector-worker.pid");
    assert_eq!(w.log_file(), "projector-worker.log");
}

#[test]
fn pid_files_hold_a_trimmed_number() {
    assert_eq!(parse_pid(" 4242\n"), Some(4242));
    assert_eq!(parse_pid("abc"), None);
    assert_eq!(parse_pid("99999999999"), None);
}

#[test]
fn zombie_lines_yield_their_pid() {
    assert_eq!(parse_zombie_pid("  123 Z+"), Some(123));
    assert_eq!(parse_zombie_pid("123 S"), None);
    assert_eq!(parse_zombie_pid("x Z"), None);
    assert_eq!(parse_zombie_pid("123"), None);
}

#[test]
fn netstat_lines_give_sorted_unique_pids() {
    let output = "  TCP    0.0.0.0:3010   0.0.0.0:0   LISTENING   812\n  UDP 0.0.0.0:3010 *:* 5\n  TCP    [::]:3010   [::]:0   LISTENING   77\nTCP 1.1.1.1:3010 x y 812\n";
    let lines = port_lines(output, ":3010");
    assert_eq!(lines.len(), 3);
    assert_eq!(port_pids(&lines), vec![77, 812]);
}

#[test]
fn migration_names_are_sanitised() {
    assert_eq!(sanitize_migration_name("Add Users-Table2"), "add_users_table2");
    assert_eq!(migration_file_name(" 20240101120000\n", "Init"), Some("20240101120000_init.sql".to_string()));
    assert_eq!(migration_file_name("  ", "Init"), None);
}

#[test]
fn deployment_targets_and_units() {
    assert_eq!(database_target("local"), Some("libsql://localhost:8080"));
    assert_eq!(database_target("prod"), Some("managed secret-backed database URL (not printed)"));
    assert_eq!(database_target("qa"), None);
    assert_eq!(service_unit("web-bff"), "web-bff.service");
    assert_eq!(service_unit("web-bff.service"), "web-bff.service");
    assert_eq!(package_manager("debian"), "apt-get");
    assert_eq!(package_manager("fedora"), "dnf");
    assert_eq!(package_manager("arch"), "unsupported");
    assert_eq!(secret_relative_path("dev", "web-bff"), "infra/security/sops/dev/web-bff.enc.yaml");
}

#[test]
fn os_release_id_is_unquoted() {
    assert_eq!(os_release_id("NAME=\"Ubuntu\"\nID=ubuntu\n"), Some("ubuntu".to_string()));
    assert_eq!(os_release_id("ID=\"rocky\"\nID=other"), Some("rocky".to_string()));
    assert_eq!(os_release_id("VERSION_ID=1"), None);
}

#[test]
fn health_bodies_are_pretty_printed() {
    assert_eq!(format_health_body("   "), "[EMPTY RESPONSE]");
    assert_eq!(format_health_body(" ok \n"), "ok");
    assert_eq!(format_health_body("{\"status\":\"ok\"}"), "{\n  \"status\": \"ok\"\n}");
}

#[test]
fn rendered_manifest_counts_kind_lines() {
    let manifest = "apiVersion: v1\nkind: Service\n---\napiVersion: apps/v1\nkind: Deployment\nmetadata:\n  kind: nested\n";
    assert_eq!(resource_kind_lines(manifest), 2);
    assert_eq!(resource_kind_lines(""), 0);
}

#[test]
fn log_truncation_only_above_limit() {
    assert!(!log_needs_truncation(10 * 1024 * 1024));
    assert!(log_needs_truncation(10 * 1024 * 1024 + 1));
    assert!(!log_needs_truncation(0));
}

#[test]
fn tail_lines_keeps_the_last_lines() {
    assert_eq!(tail_lines("a\nb\nc\nd\n", 2), "c\nd");
    assert_eq!(tail_lines("a\r\nb", 5), "a\nb");
    assert_eq!(tail_lines("", 3), "");
    assert_eq!(tail_lines("x\ny", 0), "");
}

#[test]
fn api_unit_names_account_and_paths() {
    let unit = api_service_unit("deploy", "deploy", "/srv/app", "/etc/app.env", "/srv/app/bin/api");
    assert!(unit.starts_with("[Unit]\nDescription=Axum API Service\nAfter=network.target\n\n[Service]\nType=simple\nUser=deploy\nGroup=deploy\n"));
    assert!(unit.contains("WorkingDirectory=/srv/app\nEnvironmentFile=/etc/app.env\nExecStart=/srv/app/bin/api\nRestart=on-failure\n"));
    assert!(unit.ends_with("[Install]\nWantedBy=multi-user.target\n"));
}

#[test]
fn local_compose_args_append_the_action() {
    let args = local_compose_args(vec!["tools".to_string()], &ComposeAction::Up { detach: true });
    assert_eq!(
        args,
        vec!["compose", "--profile", "tools", "-f", "infra/docker/compose/core.yaml", "-p", "tauri-sveltekit-dev", "up", "-d"]
    );
    let args = local_compose_args(Vec::new(), &ComposeAction::Down { volumes: true });
    assert_eq!(args[args.len() - 2..], ["down".to_string(), "--volumes".to_string()]);
    let args = local_compose_args(Vec::new(), &ComposeAction::Status { json: true });
    assert_eq!(args[args.len() - 3..], ["ps".to_string(), "--format".to_string(), "json".to_string()]);
    let args = local_compose_args(
        Vec::new(),
        &ComposeAction::Logs { follow: true, service: Some("nats".to_string()) },
    );
    assert_eq!(args[args.len() - 3..], ["logs".to_string(), "-f".to_string(), "nats".to_string()]);
}

#[test]
fn observability_compose_args_name_file_and_project() {
    assert_eq!(
        observability_compose_args(&ComposeAction::Up { detach: false }),
        vec!["compose", "-f", "infra/docker/compose/observability.yaml", "-p", "tauri-sveltekit-observability", "up"]
    );
    assert_eq!(
        observability_compose_args(&ComposeAction::Logs { follow: false, service: None }),
        vec!["compose", "-f", "infra/docker/compose/observability.yaml", "-p", "tauri-sveltekit-observability", "logs"]
    );
}

#[test]
fn auth_compose_args_per_request() {
    let base = ["compose", "-f", "infra/docker/compose/auth.yaml"];
    let with = |tail: &[&str]| base.iter().chain(tail.iter()).map(|s| s.to_string()).collect::<Vec<_>>();
    assert_eq!(auth_compose_args(AuthRequest::Up), with(&["up", "-d"]));
    assert_eq!(auth_compose_args(AuthRequest::Down), with(&["down"]));
    assert_eq!(auth_compose_args(AuthRequest::Status), with(&["ps"]));
    assert_eq!(auth_compose_args(AuthRequest::Logs), with(&["logs", "-f"]));
}

#[test]
fn auth_env_names_store_and_model() {
    assert_eq!(
        auth_env_content("S1", "M2"),
        "APP_OIDC_ISSUER=http://localhost:8082/auth/v1/\nAPP_OIDC_AUDIENCE=web-bff-local\nAPP_OIDC_INTROSPECTION_URL=http://localhost:8082/auth/v1/oidc/introspect\nAPP_AUTHZ_PROVIDER=openfga\nAPP_AUTHZ_ENDPOINT=http://localhost:8081\nAPP_AUTHZ_STORE_ID=S1\nAPP_AUTHZ_MODEL_ID=M2\n"
    );
}

#[test]
fn header_parts_split_at_first_colon() {
    assert_eq!(header_parts(" Authorization : Bearer a:b "), Some(("Authorization".to_string(), "Bearer a:b".to_string())));
    assert_eq!(header_parts("no-colon"), None);
    assert_eq!(header_parts(":x"), Some((String::new(), "x".to_string())));
}

#[test]
fn template_secret_path_under_templates() {
    assert_eq!(
        axum_harness::tooling::template_secret_relative_path("dev", "web-bff"),
        "infra/security/sops/templates/dev/web-bff.yaml"
    );
}

#[test]
fn skills_args_per_request() {
    assert_eq!(skills_cli_args(&SkillsRequest::List), vec!["skills", "list"]);
    assert_eq!(skills_cli_args(&SkillsRequest::Status), vec!["skills", "list"]);
    assert_eq!(skills_cli_args(&SkillsRequest::Find { query: Some("  rust ".to_string()) }), vec!["skills", "find", "rust"]);
    assert_eq!(skills_cli_args(&SkillsRequest::Find { query: Some("   ".to_string()) }), vec!["skills", "find"]);
    assert_eq!(skills_cli_args(&SkillsRequest::Find { query: None }), vec!["skills", "find"]);
    assert_eq!(
        skills_cli_args(&SkillsRequest::AddSpecific { source: "org/repo".to_string(), skill: "lint".to_string() }),
        vec!["skills", "add", "org/repo", "-s", "lint"]
    );
    assert_eq!(skills_cli_args(&SkillsRequest::Init { name: "x".to_string() }), vec!["skills", "init", "x"]);
}

#[test]
fn journal_and_version_args() {
    assert_eq!(journal_args("api.service", true), vec!["journalctl", "-u", "api.service", "-f", "--no-pager"]);
    assert_eq!(journal_args("api.service", false), vec!["journalctl", "-u", "api.service", "--no-pager"]);
    assert_eq!(version_args("age"), vec!["-version"]);
    assert_eq!(version_args("kubectl"), vec!["version", "--client"]);
    assert_eq!(version_args("git"), vec!["--version"]);
}
