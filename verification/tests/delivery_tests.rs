use axum_harness::delivery::{delivery_artifact_paths, delivery_failures, delivery_rules, replay_failures, replay_paths};

fn passing_texts() -> Vec<Option<String>> {
    let texts = [
        "secretGenerator: counter-shared-db-secrets",
        "counter-shared-db-secrets",
        "- path: /spec/replicas\n  value: 1",
        "- path: /spec/replicas\n  value: 1",
        "path: ./infra/k3s/overlays/dev/outbox-relay-worker",
        "path: ./infra/k3s/overlays/dev/projector-worker",
        "path: ./infra/k3s/overlays/staging/outbox-relay-worker",
        "path: ./infra/k3s/overlays/staging/projector-worker",
        "ENV: staging",
        "counter-shared-db-staging",
        "see the counter delivery gate",
        "run just verify-counter-delivery strict",
        "- entity: counter",
        "services: [counter-service]",
        "current_status: embedded\ntarget_status: independent\nembedded_in:\n  - web-bff",
        "runtime_profile: async-projection",
        "rollback steps",
    ];
    texts.iter().map(|t| Some(t.to_string())).collect()
}

#[test]
fn delivery_tables_have_expected_sizes() {
    assert_eq!(delivery_artifact_paths().len(), 17);
    assert_eq!(delivery_rules().len(), 17);
}

#[test]
fn complete_delivery_evidence_passes() {
    let present = vec![true; 17];
    assert_eq!(delivery_failures(&present, &passing_texts(), &None), Some(Vec::new()));
}

#[test]
fn delivery_failures_list_missing_and_unmet_evidence() {
    let mut present = vec![true; 17];
    present[0] = false;
    let mut texts = passing_texts();
    texts[1] = None;
    texts[16] = Some("no recovery notes".to_string());
    let failures = delivery_failures(&present, &texts, &Some("APP_TURSO_URL is empty or missing".to_string())).unwrap();
    assert_eq!(
        failures,
        vec![
            "infra/security/sops/dev/counter-shared-db.enc.yaml: required counter delivery artifact missing".to_string(),
            "infra/k3s/overlays/dev/projector-worker/kustomization.yaml: missing file".to_string(),
            "ops/runbooks/counter-delivery.md: counter delivery runbook must document rollback procedure".to_string(),
            "counter shared DB secret verification failed: APP_TURSO_URL is empty or missing".to_string(),
        ]
    );
}

#[test]
fn replay_checks_need_files_and_notes() {
    assert_eq!(replay_paths().len(), 5);
    let texts = vec![
        Some("mod x;".to_string()),
        Some("how to rebuild".to_string()),
        Some("no notes".to_string()),
        None,
        Some("replay lane".to_string()),
    ];
    assert_eq!(
        replay_failures(&texts),
        Some(vec![
            "services/counter-service/README.md: counter reference missing projection/replay note".to_string(),
            "platform/model/deployables/projector-worker.yaml: projector deployable missing async projection profile".to_string(),
        ])
    );
}
