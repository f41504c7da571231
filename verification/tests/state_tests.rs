use axum_harness::state::{check_state, ownership_map, workflow_findings, ServiceModel};

fn model(dir: &str, content: &str) -> ServiceModel {
    ServiceModel { dir_name: dir.to_string(), content: content.to_string() }
}

#[test]
fn ownership_map_reads_entity_blocks() {
    let text = "entities:\n- entity: counter\n  owner_service: counter-service\n- entity: tenant\n  notes: x\n- entity: user\n  owner_service: user\n";
    assert_eq!(
        ownership_map(text),
        vec![
            ("counter".to_string(), "counter-service".to_string()),
            ("user".to_string(), "user".to_string())
        ]
    );
}

#[test]
fn state_findings_check_owners_and_duplicates() {
    let ownership = Some("- entity: counter\n  owner_service: counter\n- entity: tenant\n  owner_service: billing-service\n".to_string());
    let services = vec![
        model("counter-service", "name: counter-service\nowns_entities:\n  - name: counter\n  - name: tenant\n"),
        model("other", "owns_entities:\n  - name: counter\n  - name: ghost\n"),
        model("empty", "name: empty\n"),
    ];
    let got: Vec<(bool, String, String)> = check_state(&ownership, &services, false)
        .unwrap()
        .into_iter()
        .map(|f| (f.error, f.scope, f.message))
        .collect();
    assert_eq!(
        got,
        vec![
            (true, "tenant".to_string(), "ownership-map says billing-service, service semantics say counter-service".to_string()),
            (true, "counter".to_string(), "entity declared by multiple services: counter-service and other".to_string()),
            (true, "counter".to_string(), "ownership-map says counter, service semantics say other".to_string()),
            (false, "ghost".to_string(), "missing platform ownership-map entry for other".to_string()),
            (false, "services/empty/model.yaml".to_string(), "missing owns_entities declarations".to_string()),
        ]
    );
}

#[test]
fn workflows_need_sections_and_step_checkpoints() {
    let content = "idempotency_key: k\ncheckpoint_policy: p\ncompensation:\nrecovery:\n  resume_from: last\noperator_intervention_on: x\nsteps:\n- name: charge\n  checkpoint: true\n  idempotency_key: c\n- name: notify\n  retries: 3\n- name:\n";
    let got: Vec<String> = workflow_findings(content, "platform/model/workflows/pay.yaml", true).into_iter().map(|f| f.message).collect();
    assert_eq!(
        got,
        vec![
            "step notify is missing checkpoint: true".to_string(),
            "step notify is missing idempotency_key".to_string(),
            "step unknown-step is missing checkpoint: true".to_string(),
            "step unknown-step is missing idempotency_key".to_string(),
        ]
    );
    let missing: Vec<String> = workflow_findings("steps: []\n", "w.yaml", false).into_iter().map(|f| f.message).collect();
    assert_eq!(missing.len(), 6);
    assert_eq!(missing[0], "missing top-level idempotency_key");
}
