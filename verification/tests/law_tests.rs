use axum_harness::events::{TenantCreatedEvent, TenantEvent, TenantInitializedEvent, UserEvent};
use axum_harness::pattern::pattern_matches;
use axum_harness::tenant::{
    InitTenantAction, InitTenantEvent, InitTenantFlow, Tenant, UserTenantBinding,
};
use axum_harness::tenant_store::{LibSqlTenantRepository, MigrationAction, MigrationRun};
use axum_harness::template::{removal_path, template_plan, TemplateProfile};

#[test]
fn plans_never_remove_what_they_keep() {
    for profile in [TemplateProfile::BackendCore, TemplateProfile::BackendDesktop, TemplateProfile::FullResearch] {
        let plan = template_plan(profile);
        for r in &plan.remove_candidates {
            for k in &plan.keep {
                assert_ne!(r, k);
                assert!(!pattern_matches(&removal_path(r), k), "{r} vs {k}");
                assert!(!pattern_matches(&removal_path(k), r), "{k} vs {r}");
            }
        }
    }
    assert!(template_plan(TemplateProfile::FullResearch).remove_candidates.is_empty());
}

#[test]
fn migration_runs_in_order_and_stops_at_failure() {
    let repo = LibSqlTenantRepository::new(());
    let mut run = MigrationRun::new(repo.migration());
    let first = match run.start() {
        MigrationAction::Execute { statement } => statement.sql,
        other => panic!("unexpected {:?}", other),
    };
    assert!(first.starts_with("CREATE TABLE IF NOT EXISTS tenant ("));
    let second = match run.executed(Ok(())) {
        MigrationAction::Execute { statement } => statement.sql,
        other => panic!("unexpected {:?}", other),
    };
    assert!(second.starts_with("CREATE TABLE IF NOT EXISTS user_tenant ("));
    assert!(matches!(run.executed(Ok(())), MigrationAction::Finish { result: Ok(()) }));

    let mut failing = MigrationRun::new(repo.migration());
    failing.start();
    match failing.executed(Err("locked".to_string())) {
        MigrationAction::Finish { result: Err(m) } => assert_eq!(m, "locked"),
        other => panic!("unexpected {:?}", other),
    }
    assert!(matches!(MigrationRun::new(Vec::new()).start(), MigrationAction::Finish { result: Ok(()) }));
}

#[test]
fn second_tenant_init_returns_first_result() {
    let mut first = InitTenantFlow::new("sub-1".to_string(), "Acme".to_string());
    first.step(InitTenantEvent::Start);
    let id = match first.step(InitTenantEvent::BindingLookedUp { found: Ok(None) }) {
        InitTenantAction::CreateTenant { input } => input.id,
        other => panic!("unexpected {:?}", other),
    };
    let tenant = Tenant { id: id.clone(), name: "Acme".to_string(), created_at: "t".to_string() };
    let (bound_id, bound_role) = match first.step(InitTenantEvent::TenantCreated { tenant: Ok(tenant) }) {
        InitTenantAction::CreateBinding { tenant_id, role, .. } => (tenant_id, role),
        other => panic!("unexpected {:?}", other),
    };
    let r1 = match first.step(InitTenantEvent::BindingCreated { done: Ok(()) }) {
        InitTenantAction::Finish { result: Ok(r) } => r,
        other => panic!("unexpected {:?}", other),
    };
    assert!(r1.created);
    let mut second = InitTenantFlow::new("sub-1".to_string(), "Other".to_string());
    assert!(matches!(second.step(InitTenantEvent::Start), InitTenantAction::FindUserTenant { .. }));
    let found = UserTenantBinding { tenant_id: bound_id, role: bound_role };
    match second.step(InitTenantEvent::BindingLookedUp { found: Ok(Some(found)) }) {
        InitTenantAction::Finish { result: Ok(r2) } => {
            assert_eq!(r2.tenant_id, r1.tenant_id);
            assert_eq!(r2.role, r1.role);
            assert!(!r2.created);
        }
        other => panic!("unexpected {:?}", other),
    }
}

#[test]
fn event_tags_and_subjects() {
    let e = TenantEvent::TenantCreated(TenantCreatedEvent {
        tenant_id: "t1".into(),
        name: "Acme".into(),
        created_by: "u1".into(),
        created_at: "2024-01-01T00:00:00+00:00".into(),
    });
    assert_eq!(e.event_type(), "tenant_created");
    assert_eq!(e.tenant_id(), "t1");
    let u = UserEvent::TenantInitialized(TenantInitializedEvent {
        user_id: "u1".into(),
        user_sub: "s".into(),
        tenant_id: "t1".into(),
        role: "owner".into(),
        created: true,
        initialized_at: "2024-01-01T00:00:00+00:00".into(),
    });
    assert_eq!(u.event_type(), "tenant_initialized");
    assert_eq!(u.user_id(), "u1");
}
