use axum_harness::contracts::{contract_findings, ContractFacts, ServerModule};
use axum_harness::existence::{existence_findings, DeclaredModule};
use axum_harness::imports::{import_findings, ImportRule};
use axum_harness::report::Flagged;
use axum_harness::state::{check_state, workflow_findings, ServiceModel};

/// Same scopes and messages in the same order, every warn-mode error still
/// an error in strict mode; returns how many findings were raised.
fn raised(warn: &[Flagged], strict: &[Flagged]) -> usize {
    assert_eq!(warn.len(), strict.len());
    let mut n = 0;
    for (w, s) in warn.iter().zip(strict) {
        assert_eq!(w.scope, s.scope);
        assert_eq!(w.message, s.message);
        assert!(!w.error || s.error);
        if !w.error && s.error {
            n += 1;
        }
    }
    n
}

#[test]
fn strict_imports_raise_severities_only() {
    let rules = vec![ImportRule {
        name: Some("no-servers".to_string()),
        from: vec!["services/**".to_string()],
        disallow: vec!["servers/**".to_string()],
        allow: vec!["packages/**".to_string()],
        except: vec![],
        except_same_module: true,
    }];
    let deps = vec!["servers/web-bff".to_string(), "infra/tool".to_string(), "packages/kernel".to_string()];
    let warn = import_findings(&rules, "services/counter-service", &deps, false);
    let strict = import_findings(&rules, "services/counter-service", &deps, true);
    assert_eq!(raised(&warn, &strict), 2);
}

#[test]
fn strict_existence_raises_severities_only() {
    let declared = vec![
        DeclaredModule { path: "services/a".into(), status: "active".into(), notes: "".into(), exists: false, required: vec![] },
        DeclaredModule {
            path: "services/b".into(),
            status: "active".into(),
            notes: "".into(),
            exists: true,
            required: vec![("src/lib.rs".into(), false)],
        },
    ];
    let found = vec!["services/d".to_string()];
    let warn = existence_findings(&declared, &found, false);
    let strict = existence_findings(&declared, &found, true);
    assert_eq!(raised(&warn, &strict), 2);
    assert!(!strict[2].error);
}

#[test]
fn strict_state_and_workflows_raise_severities_only() {
    let ownership = Some("- entity: counter\n  owner_service: billing\n".to_string());
    let services = vec![
        ServiceModel { dir_name: "counter-service".into(), content: "name: counter-service\nowns_entities:\n  - name: counter\n  - name: ghost\n".into() },
        ServiceModel { dir_name: "empty".into(), content: "name: empty\n".into() },
    ];
    let warn = check_state(&ownership, &services, false).unwrap();
    let strict = check_state(&ownership, &services, true).unwrap();
    assert_eq!(raised(&warn, &strict), 2);

    let content = "idempotency_key: k\nsteps:\n- name: charge\n  checkpoint: false\n";
    let warn = workflow_findings(content, "w.yaml", false);
    let strict = workflow_findings(content, "w.yaml", true);
    assert_eq!(raised(&warn, &strict), warn.len());
}

#[test]
fn strict_contracts_raise_severities_only() {
    let facts = ContractFacts {
        api_routes_doc: true,
        retired_api_bindings: false,
        web_bff_openapi: None,
        crates: vec![],
        servers: vec![ServerModule {
            name: "web-bff".into(),
            path: "servers/bff/web-bff".into(),
            has_openapi: false,
            has_runtime_openapi: false,
            has_handlers: true,
            has_routes: true,
            contract_dependencies: vec![],
            static_openapi: None,
            handler_sources: vec![],
        }],
        workspace_usage: vec![],
    };
    let warn = contract_findings(&facts, false);
    let strict = contract_findings(&facts, true);
    assert_eq!(raised(&warn, &strict), 3);
    assert_eq!(warn.len(), 4);
}
