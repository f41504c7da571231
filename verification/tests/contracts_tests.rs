use axum_harness::contracts::{contract_crate, sort_strings};
use axum_harness::contracts::{contract_boundary_findings, 
    boundary_rules, boundary_violations, contract_dependencies, contract_findings,
    exported_contract_types, join_strings, server_contract_dependencies, sort_crates,
    sort_servers, sorted_unique, ContractCrate, ContractFacts, Dependency, ServerModule,
};

fn dep(name: &str, kind: Option<&str>) -> Dependency {
    Dependency { name: Some(name.to_string()), kind: kind.map(String::from) }
}

fn strings(v: &[&str]) -> Vec<String> {
    v.iter().map(|s| s.to_string()).collect()
}

#[test]
fn service_depending_on_another_service_breaks_boundary() {
    let rules = boundary_rules();
    assert_eq!(rules.len(), 9);
    let counter = rules.iter().find(|r| r.package == "counter-service").unwrap();
    let deps = vec![
        dep("auth-service", None),
        dep("kernel", None),
        dep("storage_turso", Some("dev")),
        dep("storage_turso", Some("normal")),
        dep("counter-service", None),
        Dependency { name: None, kind: None },
    ];
    assert_eq!(boundary_violations(counter, &deps), Some(strings(&["auth-service", "storage_turso"])));
}

#[test]
fn allowed_patterns_exempt_dependencies() {
    let rules = boundary_rules();
    let kernel = &rules[0];
    assert_eq!(kernel.package, "kernel");
    let deps = vec![dep("contracts_serde_helpers", None), dep("contracts_api", None)];
    assert_eq!(boundary_violations(kernel, &deps), Some(strings(&["contracts_api"])));
}

#[test]
fn exported_types_need_a_nearby_schema_derive() {
    let lib = "#[derive(ToSchema)]\npub struct CounterView { v: i64 }\npub enum Hidden {}\n#[derive(Serialize, ToSchema)]\npub enum Kind { A }\n";
    assert_eq!(exported_contract_types(lib), Some(strings(&["CounterView", "Hidden", "Kind"])));
    let far = format!("#[derive(ToSchema)]\n{}\npub struct Far;", " ".repeat(250));
    assert_eq!(exported_contract_types(&far), Some(Vec::new()));
}

#[test]
fn manifest_contract_dependencies_are_found_per_line() {
    let manifest = "[dependencies]\ncontracts_api = { path = \"x\" }\n  contracts_events=\"1\"\nserde = \"1\"\ncontracts_api.workspace = true\n";
    assert_eq!(contract_dependencies(manifest), Some(strings(&["contracts_api", "contracts_events"])));
    assert_eq!(server_contract_dependencies("contracts_b = 1\ncontracts_a = 1\ncontracts_b = 2\n"), Some(strings(&["contracts_a", "contracts_b"])));
}

#[test]
fn strings_join_and_sort() {
    assert_eq!(join_strings(&strings(&["a", "b", "c"]), ", "), "a, b, c");
    assert_eq!(join_strings(&Vec::new(), ", "), "");
    assert_eq!(sorted_unique(&strings(&["b", "a", "b"])), strings(&["a", "b"]));
}

fn server(name: &str, handlers: bool, openapi: bool, runtime: bool, deps: &[&str], static_openapi: Option<&str>, sources: &[&str]) -> ServerModule {
    ServerModule {
        name: name.to_string(),
        path: format!("servers/{name}"),
        has_openapi: openapi,
        has_runtime_openapi: runtime,
        has_handlers: handlers,
        has_routes: false,
        contract_dependencies: strings(deps),
        static_openapi: static_openapi.map(String::from),
        handler_sources: strings(sources),
    }
}

#[test]
fn contract_findings_cover_documents_crates_and_servers() {
    let facts = ContractFacts {
        api_routes_doc: true,
        retired_api_bindings: false,
        web_bff_openapi: Some("openapi: 3.0.0".to_string()),
        crates: vec![
            ContractCrate { name: "contracts_api".to_string(), path: "packages/contracts/api".to_string(), exported_types: strings(&["CounterView"]) },
            ContractCrate { name: "contracts_unused".to_string(), path: "packages/contracts/unused".to_string(), exported_types: Vec::new() },
        ],
        servers: vec![
            server("bff", true, true, false, &["contracts_api"], Some("paths: {}"), &["fn h() -> CounterView {}"]),
            server("admin", true, false, false, &[], None, &[]),
            server("edge", true, true, true, &["contracts_api"], None, &["fn h() {}"]),
        ],
        workspace_usage: vec![("contracts_api".to_string(), strings(&["servers/bff"]))],
    };
    let findings = contract_findings(&facts, true);
    let got: Vec<(bool, String, String)> = findings.into_iter().map(|f| (f.error, f.scope, f.message)).collect();
    let expected = vec![
        (true, "docs/contracts/api-routes.yaml".to_string(), "hand-written canonical OpenAPI YAML is not allowed; generate packages/contracts/generated/openapi/web-bff.openapi.yaml from Rust/Axum sources".to_string()),
        (true, "packages/contracts/generated/openapi/web-bff.openapi.yaml".to_string(), "generated web-bff OpenAPI artifact must use OpenAPI 3.1.0".to_string()),
        (false, "packages/contracts/unused".to_string(), "contract crate 'contracts_unused' is not directly depended on by any workspace crate".to_string()),
        (false, "servers/bff".to_string(), "openapi.yaml has empty paths section but handlers exist \u{2014} consider documenting endpoints".to_string()),
        (true, "servers/admin".to_string(), "has handlers but missing openapi documentation (static or runtime via /scalar)".to_string()),
        (false, "servers/admin".to_string(), "has handlers but does not depend on any contracts_* crate \u{2014} verify this is intentional".to_string()),
        (false, "servers/edge".to_string(), "depends on contracts but may not use exported types: contracts_api".to_string()),
    ];
    assert_eq!(got, expected);
}

#[test]
fn missing_artifact_and_unreadable_openapi_are_reported() {
    let facts = ContractFacts {
        api_routes_doc: false,
        retired_api_bindings: true,
        web_bff_openapi: None,
        crates: Vec::new(),
        servers: vec![server("s", false, true, false, &["contracts_x"], None, &[])],
        workspace_usage: Vec::new(),
    };
    let got: Vec<(bool, String)> = contract_findings(&facts, false).into_iter().map(|f| (f.error, f.message)).collect();
    assert_eq!(
        got,
        vec![
            (false, "HTTP API TypeScript generated artifacts are retired; use generated OpenAPI instead".to_string()),
            (false, "missing generated web-bff OpenAPI artifact; run just typegen".to_string()),
            (false, "openapi.yaml exists but could not be read".to_string()),
        ]
    );
}

#[test]
fn crates_and_servers_sort_stably_by_name() {
    let crates = vec![
        ContractCrate { name: "b".to_string(), path: "1".to_string(), exported_types: Vec::new() },
        ContractCrate { name: "a".to_string(), path: "2".to_string(), exported_types: Vec::new() },
        ContractCrate { name: "b".to_string(), path: "3".to_string(), exported_types: Vec::new() },
    ];
    let paths: Vec<String> = sort_crates(&crates).into_iter().map(|c| c.path).collect();
    assert_eq!(paths, strings(&["2", "1", "3"]));
    let servers = vec![server("z", false, false, false, &[], None, &[]), server("m", false, false, false, &[], None, &[])];
    let names: Vec<String> = sort_servers(&servers).into_iter().map(|s| s.name).collect();
    assert_eq!(names, strings(&["m", "z"]));
}

#[test]
fn contract_boundaries_flag_local_events_beside_outbox_writes() {
    let services = vec![
        vec![(
            "services/a/src/lib.rs".to_string(),
            "pub enum CounterEvent { Up }\nfn w() { run(\"INSERT INTO event_outbox\"); }".to_string(),
        )],
        vec![
            ("services/b/src/events.rs".to_string(), "use contracts_events::AppEvent;".to_string()),
            ("services/b/src/repo.rs".to_string(), "fn f() { run(\"UPDATE  event_outbox\"); }".to_string()),
            ("services/b/src/old.rs".to_string(), "  // INSERT INTO event_outbox\nfn g() {}".to_string()),
        ],
    ];
    let findings = contract_boundary_findings(&services).expect("patterns compile");
    assert_eq!(findings.len(), 2);
    assert!(findings[0].error && findings[1].error);
    assert_eq!(findings[0].scope, "services/a/src/lib.rs");
    assert!(findings[0].message.starts_with("service-local event definitions must not live"));
    assert!(findings[1].message.starts_with("services writing to event_outbox must define"));
    assert!(contract_boundary_findings(&vec![]).expect("patterns compile").is_empty());
}

#[test]
fn contract_crates_list_exported_types_sorted() {
    let lib = "pub struct Hidden;\n#[derive(ToSchema)]\npub struct Zeta;\n#[derive(ToSchema)]\npub enum Alpha { A }\n";
    let c = contract_crate("contracts_api".to_string(), "packages/contracts/api".to_string(), lib).unwrap();
    assert_eq!(c.name, "contracts_api");
    assert_eq!(c.exported_types, vec!["Alpha".to_string(), "Zeta".to_string()]);
    let sorted = sort_strings(&vec!["b".to_string(), "a".to_string(), "b".to_string(), "B".to_string()]);
    assert_eq!(sorted, vec!["B".to_string(), "a".to_string(), "b".to_string(), "b".to_string()]);
}

#[test]
fn server_source_predicates() {
    assert!(axum_harness::contracts::serves_runtime_openapi("let app = Router::new().merge(Scalar::new(doc));"));
    assert!(axum_harness::contracts::serves_runtime_openapi("route(\"/scalar\", get(docs))"));
    assert!(!axum_harness::contracts::serves_runtime_openapi("route(\"/scalar-ui\", get(docs))"));
    assert!(axum_harness::contracts::is_handler_file("counter.rs"));
    assert!(!axum_harness::contracts::is_handler_file(".gitkeep"));
    assert!(!axum_harness::contracts::is_handler_file("README.md"));
    assert!(axum_harness::contracts::marks_generated("// This file was generated by typegen\n"));
    assert!(!axum_harness::contracts::marks_generated("export const x = 1;\n"));
}
