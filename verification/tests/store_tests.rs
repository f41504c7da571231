use axum_harness::tenant::CreateTenantInput;
use axum_harness::tenant_store::{
    first_binding, first_tenant, tenants_of, BindingRow, LibSqlTenantRepository,
    SurrealDbTenantRepository, TenantRow,
};
use axum_harness::user_store::{
    database_failure, parse_joined_at, BindingRow as UserBindingRow, CreatedTenantRow,
    LibSqlTenantRepository as UserTenantRepo, LibSqlUserRepository, LibSqlUserTenantRepository,
    User, UserRow,
};
use axum_harness::user::UserError;

fn row(id: &str) -> TenantRow {
    TenantRow { id: id.to_string(), name: format!("name-{id}"), created_at: "2024".to_string() }
}

#[test]
fn libsql_tenant_statements() {
    let repo = LibSqlTenantRepository::new(7u32);
    assert_eq!(*repo.port(), 7);
    let m = repo.migration();
    assert_eq!(m.len(), 2);
    assert!(m[0].sql.starts_with("CREATE TABLE IF NOT EXISTS tenant (id TEXT PRIMARY KEY,"));
    let (stmt, tenant) = repo.create_tenant(CreateTenantInput { id: "ignored".into(), name: "Acme".into() });
    assert_eq!(stmt.sql, "INSERT INTO tenant (id, name) VALUES (?, ?)");
    assert_eq!(stmt.params, vec![tenant.id.clone(), "Acme".to_string()]);
    assert_eq!(tenant.id.len(), 36);
    assert!(tenant.created_at.ends_with("+00:00"));
    assert_eq!(repo.get_tenant("t1").params, vec!["t1".to_string()]);
    assert_eq!(repo.delete_tenant("t1").sql, "DELETE FROM tenant WHERE id = ?");
    assert_eq!(repo.list_tenants().sql, "SELECT id, name, created_at FROM tenant ORDER BY created_at DESC");
    let b = repo.create_user_tenant_binding("u", "t", "owner");
    assert_eq!(b.params, vec!["u".to_string(), "t".to_string(), "owner".to_string()]);
}

#[test]
fn tenant_rows_map_to_tenants() {
    assert!(first_tenant(Vec::new()).is_none());
    let t = first_tenant(vec![row("a"), row("b")]).unwrap();
    assert_eq!(t.id, "a");
    let all = tenants_of(vec![row("a"), row("b")]);
    assert_eq!(all.iter().map(|t| t.name.clone()).collect::<Vec<_>>(), vec!["name-a", "name-b"]);
    let b = first_binding(vec![BindingRow { tenant_id: "t".into(), role: "owner".into() }]).unwrap();
    assert_eq!((b.tenant_id.as_str(), b.role.as_str()), ("t", "owner"));
}

#[test]
fn surreal_tenant_queries() {
    let repo = SurrealDbTenantRepository::new(());
    let q = repo.create_tenant(&CreateTenantInput { id: "t1".into(), name: "Acme".into() });
    assert_eq!(q.vars, vec![("id".to_string(), "t1".to_string()), ("name".to_string(), "Acme".to_string())]);
    assert_eq!(repo.get_tenant("t1").query, "SELECT * FROM tenant WHERE id = $id");
    match SurrealDbTenantRepository::<()>::created_tenant(Vec::new()) {
        Err(m) => assert_eq!(m, "Failed to create tenant"),
        Ok(_) => panic!("expected an error"),
    }
}

#[test]
fn user_repository_statements_and_rows() {
    let repo = LibSqlUserRepository::new("db");
    assert_eq!(*repo.port(), "db");
    assert_eq!(repo.find_by_sub("s").params, vec!["s".to_string()]);
    let user = User {
        id: "u1".into(),
        user_sub: "s".into(),
        display_name: "Alice".into(),
        email: None,
        created_at: "2024-01-01T00:00:00+00:00".into(),
        last_login_at: None,
    };
    let stmt = repo.create_user(&user);
    assert_eq!(stmt.params, vec!["u1", "s", "Alice", "", "2024-01-01T00:00:00+00:00", ""].into_iter().map(String::from).collect::<Vec<_>>());
    let upd = repo.update_last_login("s");
    assert_eq!(upd.params.len(), 2);
    assert_eq!(upd.params[1], "s");
    assert!(upd.params[0].ends_with("+00:00"));
    let rows = vec![UserRow {
        id: "u1".into(),
        user_sub: "s".into(),
        display_name: "Alice".into(),
        email: Some("a@x".into()),
        created_at: "2024-01-01T02:00:00+02:00".into(),
        last_login_at: Some("bad".into()),
    }];
    let u = LibSqlUserRepository::<&str>::user_from_rows(&rows).unwrap();
    assert_eq!(u.created_at, "2024-01-01T00:00:00+00:00");
    assert_eq!(u.last_login_at, None);
    assert!(LibSqlUserRepository::<&str>::user_from_rows(&Vec::new()).is_none());
    let mut unreadable = rows.clone();
    unreadable[0].created_at = "yesterday".into();
    let fallback = LibSqlUserRepository::<&str>::user_from_rows(&unreadable).unwrap();
    assert!(fallback.created_at.ends_with("+00:00"));
}

#[test]
fn user_service_tenant_and_binding_repositories() {
    let tenants = UserTenantRepo::new(1u8);
    assert_eq!(tenants.create_tenant("Acme").params, vec!["Acme".to_string()]);
    let lookup = tenants.find_by_id("t9");
    assert_eq!(lookup.sql, "SELECT id, name, created_at FROM tenant WHERE id = ? LIMIT 1");
    assert_eq!(lookup.params, vec!["t9".to_string()]);
    match UserTenantRepo::<u8>::created_tenant_id(&Vec::new()) {
        Err(UserError::Database(m)) => assert_eq!(m, "failed to create tenant"),
        other => panic!("unexpected {:?}", other),
    }
    assert_eq!(UserTenantRepo::<u8>::created_tenant_id(&vec![CreatedTenantRow { id: "x".into() }]).ok(), Some("x".to_string()));
    let bindings = LibSqlUserTenantRepository::new(1u8);
    assert_eq!(bindings.create_binding("u", "t", "owner").params.len(), 3);
    let rows = vec![UserBindingRow {
        id: "b".into(),
        user_sub: "u".into(),
        tenant_id: "t".into(),
        role: "owner".into(),
        joined_at: "2024-05-06 07:08:09".into(),
    }];
    let b = LibSqlUserTenantRepository::<u8>::binding_from_rows(&rows).unwrap();
    assert_eq!(b.joined_at, "2024-05-06T07:08:09+00:00");
    match LibSqlUserTenantRepository::<u8>::created_binding(None) {
        Err(UserError::Database(m)) => assert_eq!(m, "failed to fetch created binding"),
        other => panic!("unexpected {:?}", other),
    }
}

#[test]
fn join_times_accept_two_formats() {
    assert_eq!(parse_joined_at("2024-05-06T07:08:09Z"), Some("2024-05-06T07:08:09+00:00".to_string()));
    assert_eq!(parse_joined_at("2024-05-06 07:08:09"), Some("2024-05-06T07:08:09+00:00".to_string()));
    assert_eq!(parse_joined_at("yesterday"), None);
    match database_failure("query", "timeout") {
        UserError::Database(m) => assert_eq!(m, "query failed: timeout"),
        other => panic!("unexpected {:?}", other),
    }
}
