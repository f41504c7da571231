use axum_harness::tenant::{
    repository_failure, validate_create_tenant, CreateTenantInput,
    InitTenantAction, InitTenantEvent, InitTenantFlow, Tenant, TenantServiceError,
    UserTenantBinding as TenantBinding,
};
use axum_harness::user::{
    generate_id, hex_id, InitTenantInput, UserError, UserInitAction, UserInitEvent, UserInitFlow,
    UserTenantBinding,
};

fn input(id: &str, name: &str) -> CreateTenantInput {
    CreateTenantInput { id: id.to_string(), name: name.to_string() }
}

#[test]
fn test_create_tenant_success() {
    assert!(validate_create_tenant(&input("tenant-123", "Test Tenant")).is_ok());
}

#[test]
fn test_create_tenant_empty_id() {
    match validate_create_tenant(&input("", "Test Tenant")) {
        Err(TenantServiceError::InvalidInput(m)) => assert_eq!(m, "tenant id cannot be empty"),
        other => panic!("unexpected {:?}", other),
    }
}

#[test]
fn test_create_tenant_empty_name() {
    match validate_create_tenant(&input("tenant-456", "")) {
        Err(TenantServiceError::InvalidInput(m)) => assert_eq!(m, "tenant name cannot be empty"),
        other => panic!("unexpected {:?}", other),
    }
}

#[test]
fn repository_failures_become_database_errors() {
    match repository_failure("disk full".to_string()) {
        TenantServiceError::Database(m) => assert_eq!(m, "disk full"),
        other => panic!("unexpected {:?}", other),
    }
}

#[test]
fn tenant_flow_returns_existing_binding() {
    let mut flow = InitTenantFlow::new("user-1".to_string(), "Acme".to_string());
    match flow.step(InitTenantEvent::Start) {
        InitTenantAction::FindUserTenant { user_sub } => assert_eq!(user_sub, "user-1"),
        other => panic!("unexpected {:?}", other),
    }
    let binding = TenantBinding { tenant_id: "tenant-9".to_string(), role: "member".to_string() };
    match flow.step(InitTenantEvent::BindingLookedUp { found: Ok(Some(binding)) }) {
        InitTenantAction::Finish { result: Ok(r) } => {
            assert_eq!(r.tenant_id, "tenant-9");
            assert_eq!(r.role, "member");
            assert!(!r.created);
        }
        other => panic!("unexpected {:?}", other),
    }
}

#[test]
fn tenant_flow_creates_tenant_and_owner_binding() {
    let mut flow = InitTenantFlow::new("user-2".to_string(), "Beta".to_string());
    flow.step(InitTenantEvent::Start);
    let id = match flow.step(InitTenantEvent::BindingLookedUp { found: Ok(None) }) {
        InitTenantAction::CreateTenant { input } => {
            assert_eq!(input.id.len(), 36);
            assert_eq!(input.name, "Beta");
            input.id
        }
        other => panic!("unexpected {:?}", other),
    };
    let tenant = Tenant { id: id.clone(), name: "Beta".to_string(), created_at: "now".to_string() };
    match flow.step(InitTenantEvent::TenantCreated { tenant: Ok(tenant) }) {
        InitTenantAction::CreateBinding { user_sub, tenant_id, role } => {
            assert_eq!(user_sub, "user-2");
            assert_eq!(tenant_id, id);
            assert_eq!(role, "owner");
        }
        other => panic!("unexpected {:?}", other),
    }
    match flow.step(InitTenantEvent::BindingCreated { done: Ok(()) }) {
        InitTenantAction::Finish { result: Ok(r) } => {
            assert_eq!(r.tenant_id, id);
            assert_eq!(r.role, "owner");
            assert!(r.created);
        }
        other => panic!("unexpected {:?}", other),
    }
}

#[test]
fn tenant_flow_stops_on_repository_error() {
    let mut flow = InitTenantFlow::new("u".to_string(), "n".to_string());
    flow.step(InitTenantEvent::Start);
    match flow.step(InitTenantEvent::BindingLookedUp { found: Err("down".to_string()) }) {
        InitTenantAction::Finish { result: Err(TenantServiceError::Database(m)) } => assert_eq!(m, "down"),
        other => panic!("unexpected {:?}", other),
    }
}

fn user_input(sub: &str, name: &str) -> InitTenantInput {
    InitTenantInput { user_sub: sub.to_string(), user_name: name.to_string(), email: Some("alice@example.com".to_string()) }
}

#[test]
fn test_init_tenant_creates_new() {
    let mut flow = UserInitFlow::new(user_input("google-123", "Alice"));
    assert!(matches!(flow.step(UserInitEvent::Start), UserInitAction::FindUserTenant { .. }));
    assert!(matches!(flow.step(UserInitEvent::BindingLookedUp { found: Ok(None) }), UserInitAction::FindUser { .. }));
    match flow.step(UserInitEvent::UserLookedUp { exists: Ok(false) }) {
        UserInitAction::CreateUser { user } => {
            assert_eq!(user.user_sub, "google-123");
            assert_eq!(user.display_name, "Alice");
            assert_eq!(user.email, Some("alice@example.com".to_string()));
            assert_eq!(user.id.len(), 32);
            assert!(user.id.chars().all(|c| c.is_ascii_digit() || ('a'..='f').contains(&c)));
            assert!(user.created_at.ends_with("+00:00"));
            assert_eq!(user.last_login_at.as_deref(), Some(user.created_at.as_str()));
        }
        other => panic!("unexpected {:?}", other),
    }
    match flow.step(UserInitEvent::UserCreated { done: Ok(()) }) {
        UserInitAction::CreateTenant { name } => assert_eq!(name, "Alice"),
        other => panic!("unexpected {:?}", other),
    }
    match flow.step(UserInitEvent::TenantCreated { tenant_id: Ok("tenant-alice".to_string()) }) {
        UserInitAction::CreateBinding { user_sub, tenant_id, role } => {
            assert_eq!(user_sub, "google-123");
            assert_eq!(tenant_id, "tenant-alice");
            assert_eq!(role, "owner");
        }
        other => panic!("unexpected {:?}", other),
    }
    let binding = UserTenantBinding {
        id: "b1".to_string(),
        user_sub: "google-123".to_string(),
        tenant_id: "tenant-alice".to_string(),
        role: "owner".to_string(),
        joined_at: "2024-01-01T00:00:00+00:00".to_string(),
    };
    match flow.step(UserInitEvent::BindingCreated { binding: Ok(binding) }) {
        UserInitAction::Finish { result: Ok(r) } => {
            assert_eq!(r.tenant_id, "tenant-alice");
            assert_eq!(r.role, "owner");
            assert!(r.created);
        }
        other => panic!("unexpected {:?}", other),
    }
}

#[test]
fn test_init_tenant_returns_existing() {
    let mut flow = UserInitFlow::new(user_input("google-456", "Bob"));
    flow.step(UserInitEvent::Start);
    let binding = UserTenantBinding {
        id: "b2".to_string(),
        user_sub: "google-456".to_string(),
        tenant_id: "tenant-existing".to_string(),
        role: "owner".to_string(),
        joined_at: "2024-01-01T00:00:00+00:00".to_string(),
    };
    assert!(matches!(flow.step(UserInitEvent::BindingLookedUp { found: Ok(Some(binding)) }), UserInitAction::UpdateLastLogin { .. }));
    match flow.step(UserInitEvent::LastLoginUpdated) {
        UserInitAction::Finish { result: Ok(r) } => {
            assert_eq!(r.tenant_id, "tenant-existing");
            assert_eq!(r.role, "owner");
            assert!(!r.created);
        }
        other => panic!("unexpected {:?}", other),
    }
}

#[test]
fn test_init_tenant_rejects_empty_sub() {
    let mut flow = UserInitFlow::new(user_input("", "Charlie"));
    match flow.step(UserInitEvent::Start) {
        UserInitAction::Finish { result: Err(UserError::InvalidInput(m)) } => assert_eq!(m, "user_sub cannot be empty"),
        other => panic!("unexpected {:?}", other),
    }
}

#[test]
fn user_ids_are_lower_hex() {
    assert_eq!(hex_id(&[0x00, 0xab, 0x10]), "00ab10");
    let id = generate_id();
    assert_eq!(id.len(), 32);
    assert!(id.chars().all(|c| c.is_ascii_hexdigit() && !c.is_ascii_uppercase()));
}

#[test]
fn tenant_flow_rejects_empty_tenant_name() {
    let mut flow = InitTenantFlow::new("user-3".to_string(), String::new());
    flow.step(InitTenantEvent::Start);
    match flow.step(InitTenantEvent::BindingLookedUp { found: Ok(None) }) {
        InitTenantAction::Finish { result: Err(TenantServiceError::InvalidInput(m)) } => {
            assert_eq!(m, "tenant name cannot be empty")
        }
        other => panic!("unexpected {:?}", other),
    }
}

#[test]
fn tenant_flows_generate_distinct_ids() {
    let fresh = || {
        let mut flow = InitTenantFlow::new("u".to_string(), "n".to_string());
        flow.step(InitTenantEvent::Start);
        match flow.step(InitTenantEvent::BindingLookedUp { found: Ok(None) }) {
            InitTenantAction::CreateTenant { input } => input.id,
            other => panic!("unexpected {:?}", other),
        }
    };
    let (a, b) = (fresh(), fresh());
    assert_eq!(a.len(), 36);
    assert_ne!(a, b);
    assert_eq!(a.matches('-').count(), 4);
    for (i, c) in a.chars().enumerate() {
        if [8, 13, 18, 23].contains(&i) {
            assert_eq!(c, '-');
        } else {
            assert!(c.is_ascii_digit() || ('a'..='f').contains(&c), "{c} at {i}");
        }
    }
    assert_eq!(a.chars().nth(14), Some('4'));
}

/// In-memory tenant store standing in for the repository in the lifecycle
/// tests; creation goes through the library's input checks first.
struct MockTenantRepository {
    tenants: Vec<Tenant>,
}

impl MockTenantRepository {
    fn new() -> Self {
        Self { tenants: Vec::new() }
    }

    fn create_tenant(&mut self, input: CreateTenantInput) -> Result<Tenant, TenantServiceError> {
        validate_create_tenant(&input)?;
        let tenant = Tenant { id: input.id, name: input.name, created_at: "2024-01-01T00:00:00+00:00".to_string() };
        self.tenants.push(tenant.clone());
        Ok(tenant)
    }

    fn get_tenant(&self, id: &str) -> Option<Tenant> {
        self.tenants.iter().find(|t| t.id == id).cloned()
    }

    fn delete_tenant(&mut self, id: &str) {
        self.tenants.retain(|t| t.id != id);
    }
}

#[test]
fn test_create_and_get_tenant() {
    let mut service = MockTenantRepository::new();
    let created = service.create_tenant(input("tenant-1", "Test Tenant")).unwrap();
    assert_eq!(created.id, "tenant-1");
    assert_eq!(created.name, "Test Tenant");
    let found = service.get_tenant("tenant-1");
    assert!(found.is_some());
    assert_eq!(found.unwrap().name, "Test Tenant");
}

#[test]
fn tenant_service_test_test_list_tenants() {
    let mut service = MockTenantRepository::new();
    service.create_tenant(input("t1", "Tenant 1")).unwrap();
    service.create_tenant(input("t2", "Tenant 2")).unwrap();
    assert_eq!(service.tenants.len(), 2);
}

#[test]
fn tenant_service_test_test_delete_tenant() {
    let mut service = MockTenantRepository::new();
    service.create_tenant(input("t1", "To Delete")).unwrap();
    service.delete_tenant("t1");
    assert!(service.get_tenant("t1").is_none());
}

#[test]
fn test_get_nonexistent_tenant() {
    let service = MockTenantRepository::new();
    assert!(service.get_tenant("nonexistent").is_none());
}

#[test]
fn test_reject_empty_tenant_id() {
    let mut service = MockTenantRepository::new();
    let result = service.create_tenant(input("", "Test"));
    assert!(result.is_err());
    assert!(service.tenants.is_empty());
}

#[test]
fn test_get_tenant_existing() {
    let mut service = MockTenantRepository::new();
    service.create_tenant(input("tenant-789", "Get Test Tenant")).unwrap();
    let result = service.get_tenant("tenant-789");
    assert!(result.is_some());
    assert_eq!(result.unwrap().name, "Get Test Tenant");
}

#[test]
fn test_get_tenant_nonexistent() {
    let service = MockTenantRepository::new();
    assert!(service.get_tenant("nonexistent").is_none());
}

#[test]
fn tenant_tests_test_list_tenants() {
    let mut service = MockTenantRepository::new();
    service.create_tenant(input("tenant-1", "Tenant One")).unwrap();
    service.create_tenant(input("tenant-2", "Tenant Two")).unwrap();
    assert_eq!(service.tenants.len(), 2);
}

#[test]
fn tenant_tests_test_delete_tenant() {
    let mut service = MockTenantRepository::new();
    service.create_tenant(input("tenant-delete", "Delete Me")).unwrap();
    service.delete_tenant("tenant-delete");
    assert!(service.get_tenant("tenant-delete").is_none());
}
