//! Tenant repositories: the statements that the LibSQL and SurrealDB tenant
//! repositories send to their database port, and how the rows that come back
//! become tenants and bindings.
//!
//! The port itself is an outside service; each repository holds it and
//! describes, per operation, the exact statement and parameters to run.
use vstd::prelude::*;

use crate::tenant::{CreateTenantInput, Tenant, UserTenantBinding};
use crate::text::has_suffix;

verus! {

/// A SQL statement with its positional parameters.
#[derive(Debug, Clone)]
pub struct SqlStatement {
    pub sql: String,
    pub params: Vec<String>,
}

/// Views of a statement's parameters.
pub open spec fn param_views(p: Seq<String>) -> Seq<Seq<char>> {
    p.map_values(|s: String| s@)
}

/// A SurrealQL query with its named string variables.
#[derive(Debug, Clone)]
pub struct SurrealQuery {
    pub query: String,
    pub vars: Vec<(String, String)>,
}

/// Views of a query's variables.
pub open spec fn var_views(v: Seq<(String, String)>) -> Seq<(Seq<char>, Seq<char>)> {
    v.map_values(|e: (String, String)| (e.0@, e.1@))
}

/// A row of the tenant table.
#[derive(Debug, Clone)]
pub struct TenantRow {
    pub id: String,
    pub name: String,
    pub created_at: String,
}

/// A row of the user-tenant binding query.
#[derive(Debug, Clone)]
pub struct BindingRow {
    pub tenant_id: String,
    pub role: String,
}

/// The tenant a row describes, field for field.
pub fn row_to_tenant(row: TenantRow) -> (t: Tenant)
    ensures
        t.id == row.id,
        t.name == row.name,
        t.created_at == row.created_at,
{
    Tenant { id: row.id, name: row.name, created_at: row.created_at }
}

/// The tenant of the first row, if there is one.
pub fn first_tenant(rows: Vec<TenantRow>) -> (r: Option<Tenant>)
    ensures
        rows@.len() == 0 ==> r is None,
        rows@.len() > 0 ==> (r matches Some(t) && t.id == rows@[0].id && t.name == rows@[0].name
            && t.created_at == rows@[0].created_at),
{
    let mut rows = rows;
    if rows.len() == 0 {
        None
    } else {
        Some(row_to_tenant(rows.swap_remove(0)))
    }
}

/// The tenants of all rows, in order.
pub fn tenants_of(rows: Vec<TenantRow>) -> (r: Vec<Tenant>)
    ensures
        r@.len() == rows@.len(),
        forall|i: int| 0 <= i < rows@.len() ==> #[trigger] r@[i].id == rows@[i].id && r@[i].name
            == rows@[i].name && r@[i].created_at == rows@[i].created_at,
{
    let mut out: Vec<Tenant> = Vec::new();
    let mut i: usize = 0;
    while i < rows.len()
        invariant
            i <= rows@.len(),
            out@.len() == i,
            forall|j: int| 0 <= j < i ==> #[trigger] out@[j].id == rows@[j].id && out@[j].name
                == rows@[j].name && out@[j].created_at == rows@[j].created_at,
        decreases rows@.len() - i,
    {
        let row = TenantRow {
            id: rows[i].id.clone(),
            name: rows[i].name.clone(),
            created_at: rows[i].created_at.clone(),
        };
        out.push(row_to_tenant(row));
        i = i + 1;
    }
    out
}

/// The binding of the first row, if there is one.
pub fn first_binding(rows: Vec<BindingRow>) -> (r: Option<UserTenantBinding>)
    ensures
        rows@.len() == 0 ==> r is None,
        rows@.len() > 0 ==> (r matches Some(b) && b.tenant_id == rows@[0].tenant_id && b.role
            == rows@[0].role),
{
    let mut rows = rows;
    if rows.len() == 0 {
        None
    } else {
        let row = rows.swap_remove(0);
        Some(UserTenantBinding { tenant_id: row.tenant_id, role: row.role })
    }
}

/// A timestamp written in UTC: chrono's RFC 3339 text for a UTC time ends
/// with the offset `+00:00`.
pub open spec fn utc_stamp(t: Seq<char>) -> bool {
    has_suffix(t, "+00:00"@)
}

/// The current time in RFC 3339, from `chrono::Utc::now().to_rfc3339()`.
/// Claims only the UTC offset that chrono writes for `Utc` (`+00:00`); the
/// date and time depend on the clock and are left unsaid.
#[verifier::external_body]
pub(crate) fn now_rfc3339() -> (t: String)
    ensures
        utc_stamp(t@),
{
    chrono::Utc::now().to_rfc3339()
}

// ---------------------------------------------------------------------------
// LibSQL
// ---------------------------------------------------------------------------

/// Statement that creates the tenant table if it is missing.
pub open spec fn tenant_table_sql() -> Seq<char> {
    "CREATE TABLE IF NOT EXISTS tenant (id TEXT PRIMARY KEY,name TEXT NOT NULL,created_at TEXT NOT NULL DEFAULT (datetime('now')))"@
}

/// Statement that creates the user-tenant table if it is missing.
pub open spec fn user_tenant_table_sql() -> Seq<char> {
    "CREATE TABLE IF NOT EXISTS user_tenant (id TEXT PRIMARY KEY,user_sub TEXT NOT NULL,tenant_id TEXT NOT NULL,role TEXT NOT NULL DEFAULT 'member',FOREIGN KEY (tenant_id) REFERENCES tenant(id))"@
}

/// The LibSQL-backed tenant repository over a database port `P`.
pub struct LibSqlTenantRepository<P> {
    port: P,
}

impl<P> LibSqlTenantRepository<P> {
    /// The port this repository runs its statements on.
    pub closed spec fn port_view(&self) -> P {
        self.port
    }

    /// A repository over `port`.
    pub fn new(port: P) -> (r: Self)
        ensures
            r.port_view() == port,
    {
        Self { port }
    }

    /// The port this repository runs its statements on.
    pub fn port(&self) -> (p: &P)
        ensures
            *p == self.port_view(),
    {
        &self.port
    }

    /// The two migration statements, tenant table first; both are idempotent.
    pub fn migration(&self) -> (r: Vec<SqlStatement>)
        ensures
            r@.len() == 2,
            r@[0].sql@ == tenant_table_sql() && r@[0].params@.len() == 0,
            r@[1].sql@ == user_tenant_table_sql() && r@[1].params@.len() == 0,
    {
        let tenant = SqlStatement {
            sql: "CREATE TABLE IF NOT EXISTS tenant (id TEXT PRIMARY KEY,name TEXT NOT NULL,created_at TEXT NOT NULL DEFAULT (datetime('now')))".to_string(),
            params: Vec::new(),
        };
        let binding = SqlStatement {
            sql: "CREATE TABLE IF NOT EXISTS user_tenant (id TEXT PRIMARY KEY,user_sub TEXT NOT NULL,tenant_id TEXT NOT NULL,role TEXT NOT NULL DEFAULT 'member',FOREIGN KEY (tenant_id) REFERENCES tenant(id))".to_string(),
            params: Vec::new(),
        };
        let mut r: Vec<SqlStatement> = Vec::new();
        r.push(tenant);
        r.push(binding);
        r
    }

    /// Creates a tenant: a fresh id is generated up front, the statement
    /// inserts it with the input's name, and the tenant returned carries that
    /// id, the name and the current time.
    pub fn create_tenant(&self, input: CreateTenantInput) -> (r: (SqlStatement, Tenant))
        ensures
            r.0.sql@ == "INSERT INTO tenant (id, name) VALUES (?, ?)"@,
            param_views(r.0.params@) == seq![r.1.id@, input.name@],
            crate::tenant::v4_uuid_text(r.1.id@),
            r.1.name == input.name,
            utc_stamp(r.1.created_at@),
    {
        let id = crate::tenant::generate_tenant_id();
        let mut params: Vec<String> = Vec::new();
        params.push(id.clone());
        params.push(input.name.clone());
        let statement = SqlStatement {
            sql: "INSERT INTO tenant (id, name) VALUES (?, ?)".to_string(),
            params,
        };
        assert(param_views(statement.params@) =~= seq![id@, input.name@]);
        (statement, Tenant { id, name: input.name, created_at: now_rfc3339() })
    }

    /// Reads the tenant with the given id; the first row returned is the
    /// tenant (see `first_tenant`).
    pub fn get_tenant(&self, id: &str) -> (r: SqlStatement)
        ensures
            r.sql@ == "SELECT id, name, created_at FROM tenant WHERE id = ?"@,
            param_views(r.params@) == seq![id@],
    {
        let mut params: Vec<String> = Vec::new();
        params.push(id.to_string());
        let r = SqlStatement {
            sql: "SELECT id, name, created_at FROM tenant WHERE id = ?".to_string(),
            params,
        };
        assert(param_views(r.params@) =~= seq![id@]);
        r
    }

    /// Lists all tenants, newest first (see `tenants_of`).
    pub fn list_tenants(&self) -> (r: SqlStatement)
        ensures
            r.sql@ == "SELECT id, name, created_at FROM tenant ORDER BY created_at DESC"@,
            r.params@.len() == 0,
    {
        SqlStatement {
            sql: "SELECT id, name, created_at FROM tenant ORDER BY created_at DESC".to_string(),
            params: Vec::new(),
        }
    }

    /// Deletes the tenant with the given id.
    pub fn delete_tenant(&self, id: &str) -> (r: SqlStatement)
        ensures
            r.sql@ == "DELETE FROM tenant WHERE id = ?"@,
            param_views(r.params@) == seq![id@],
    {
        let mut params: Vec<String> = Vec::new();
        params.push(id.to_string());
        let r = SqlStatement { sql: "DELETE FROM tenant WHERE id = ?".to_string(), params };
        assert(param_views(r.params@) =~= seq![id@]);
        r
    }

    /// Reads a user's binding; the first row is the binding (see
    /// `first_binding`).
    pub fn find_user_tenant(&self, user_sub: &str) -> (r: SqlStatement)
        ensures
            r.sql@ == "SELECT tenant_id, role FROM user_tenant WHERE user_sub = ? LIMIT 1"@,
            param_views(r.params@) == seq![user_sub@],
    {
        let mut params: Vec<String> = Vec::new();
        params.push(user_sub.to_string());
        let r = SqlStatement {
            sql: "SELECT tenant_id, role FROM user_tenant WHERE user_sub = ? LIMIT 1".to_string(),
            params,
        };
        assert(param_views(r.params@) =~= seq![user_sub@]);
        r
    }

    /// Binds a user to a tenant with a role; the binding's id is made by the
    /// database.
    pub fn create_user_tenant_binding(&self, user_sub: &str, tenant_id: &str, role: &str) -> (r:
        SqlStatement)
        ensures
            r.sql@
                == "INSERT INTO user_tenant (id, user_sub, tenant_id, role) VALUES (lower(hex(randomblob(16))), ?, ?, ?)"@,
            param_views(r.params@) == seq![user_sub@, tenant_id@, role@],
    {
        let mut params: Vec<String> = Vec::new();
        params.push(user_sub.to_string());
        params.push(tenant_id.to_string());
        params.push(role.to_string());
        let r = SqlStatement {
            sql: "INSERT INTO user_tenant (id, user_sub, tenant_id, role) VALUES (lower(hex(randomblob(16))), ?, ?, ?)".to_string(),
            params,
        };
        assert(param_views(r.params@) =~= seq![user_sub@, tenant_id@, role@]);
        r
    }
}

// ---------------------------------------------------------------------------
// SurrealDB
// ---------------------------------------------------------------------------

/// Message when SurrealDB returns no row for a created tenant.
pub open spec fn create_failed_message() -> Seq<char> {
    "Failed to create tenant"@
}

/// The SurrealDB-backed tenant repository over a database port `P`.
pub struct SurrealDbTenantRepository<P> {
    port: P,
}

impl<P> SurrealDbTenantRepository<P> {
    /// The port this repository runs its queries on.
    pub closed spec fn port_view(&self) -> P {
        self.port
    }

    /// A repository over `port`.
    pub fn new(port: P) -> (r: Self)
        ensures
            r.port_view() == port,
    {
        Self { port }
    }

    /// The port this repository runs its queries on.
    pub fn port(&self) -> (p: &P)
        ensures
            *p == self.port_view(),
    {
        &self.port
    }

    /// Creates a tenant with the input's id and name, stamped by the database.
    pub fn create_tenant(&self, input: &CreateTenantInput) -> (r: SurrealQuery)
        ensures
            r.query@
                == "CREATE tenant CONTENT { id: $id, name: $name, created_at: time::now() } RETURN AFTER"@,
            var_views(r.vars@) == seq![("id"@, input.id@), ("name"@, input.name@)],
    {
        let mut vars: Vec<(String, String)> = Vec::new();
        vars.push(("id".to_string(), input.id.clone()));
        vars.push(("name".to_string(), input.name.clone()));
        let r = SurrealQuery {
            query: "CREATE tenant CONTENT { id: $id, name: $name, created_at: time::now() } RETURN AFTER".to_string(),
            vars,
        };
        assert(var_views(r.vars@) =~= seq![("id"@, input.id@), ("name"@, input.name@)]);
        r
    }

    /// The created tenant: the first row returned, or an error when there is
    /// none.
    pub fn created_tenant(rows: Vec<TenantRow>) -> (r: Result<Tenant, String>)
        ensures
            rows@.len() == 0 ==> (r matches Err(m) && m@ == create_failed_message()),
            rows@.len() > 0 ==> (r matches Ok(t) && t.id == rows@[0].id && t.name == rows@[0].name
                && t.created_at == rows@[0].created_at),
    {
        match first_tenant(rows) {
            Some(t) => Ok(t),
            None => Err("Failed to create tenant".to_string()),
        }
    }

    /// Reads the tenant with the given id.
    pub fn get_tenant(&self, id: &str) -> (r: SurrealQuery)
        ensures
            r.query@ == "SELECT * FROM tenant WHERE id = $id"@,
            var_views(r.vars@) == seq![("id"@, id@)],
    {
        let mut vars: Vec<(String, String)> = Vec::new();
        vars.push(("id".to_string(), id.to_string()));
        let r = SurrealQuery { query: "SELECT * FROM tenant WHERE id = $id".to_string(), vars };
        assert(var_views(r.vars@) =~= seq![("id"@, id@)]);
        r
    }

    /// Lists all tenants, newest first.
    pub fn list_tenants(&self) -> (r: SurrealQuery)
        ensures
            r.query@ == "SELECT * FROM tenant ORDER BY created_at DESC"@,
            r.vars@.len() == 0,
    {
        SurrealQuery {
            query: "SELECT * FROM tenant ORDER BY created_at DESC".to_string(),
            vars: Vec::new(),
        }
    }

    /// Deletes the tenant with the given id.
    pub fn delete_tenant(&self, id: &str) -> (r: SurrealQuery)
        ensures
            r.query@ == "DELETE tenant WHERE id = $id"@,
            var_views(r.vars@) == seq![("id"@, id@)],
    {
        let mut vars: Vec<(String, String)> = Vec::new();
        vars.push(("id".to_string(), id.to_string()));
        let r = SurrealQuery { query: "DELETE tenant WHERE id = $id".to_string(), vars };
        assert(var_views(r.vars@) =~= seq![("id"@, id@)]);
        r
    }
}


// ---------------------------------------------------------------------------
// Running a migration
// ---------------------------------------------------------------------------

/// What a migration run asks for next.
#[derive(Debug)]
pub enum MigrationAction {
    /// Execute this statement and report its outcome.
    Execute { statement: SqlStatement },
    /// The run is over with this result.
    Finish { result: Result<(), String> },
}

/// A run of migration statements, one after the other.
#[derive(Debug)]
pub struct MigrationRun {
    pub statements: Vec<SqlStatement>,
    pub next: usize,
    pub finished: bool,
}

impl MigrationRun {
    /// A run over `statements`, none executed yet.
    pub fn new(statements: Vec<SqlStatement>) -> (r: MigrationRun)
        ensures
            r.statements@ == statements@,
            r.next == 0,
            !r.finished,
    {
        MigrationRun { statements, next: 0, finished: false }
    }

    /// The first request: the first statement, or success when there is
    /// none.
    pub fn start(&mut self) -> (a: MigrationAction)
        requires
            old(self).next == 0,
            !old(self).finished,
        ensures
            final(self).statements@ == old(self).statements@,
            old(self).statements@.len() == 0 ==> final(self).finished && (a matches MigrationAction::Finish {
                result: Ok(_),
            }),
            old(self).statements@.len() > 0 ==> !final(self).finished && final(self).next == 0 && (
            a matches MigrationAction::Execute { statement } && statement.sql@ == old(self).statements@[0].sql@ && param_views(statement.params@) == param_views(
                old(self).statements@[0].params@,
            )),
    {
        if self.statements.len() == 0 {
            self.finished = true;
            return MigrationAction::Finish { result: Ok(()) };
        }
        MigrationAction::Execute { statement: copy_statement(&self.statements[0]) }
    }

    /// The outcome of the statement just executed: a failure ends the run
    /// with it; a success asks for the next statement, or ends the run with
    /// success after the last.
    pub fn executed(&mut self, outcome: Result<(), String>) -> (a: MigrationAction)
        requires
            !old(self).finished,
            old(self).next < old(self).statements@.len(),
        ensures
            final(self).statements@ == old(self).statements@,
            outcome matches Err(e) ==> final(self).finished && (a matches MigrationAction::Finish {
                result: Err(m),
            } && m@ == e@),
            outcome is Ok && old(self).next + 1 == old(self).statements@.len() ==> final(self).finished && (a matches MigrationAction::Finish { result: Ok(_) }),
            outcome is Ok && old(self).next + 1 < old(self).statements@.len() ==> !final(self).finished && final(self).next == old(self).next + 1 && (
            a matches MigrationAction::Execute { statement } && statement.sql@ == old(self).statements@[old(self).next + 1].sql@ && param_views(statement.params@)
                == param_views(old(self).statements@[old(self).next + 1].params@)),
    {
        match outcome {
            Err(e) => {
                self.finished = true;
                MigrationAction::Finish { result: Err(e) }
            },
            Ok(()) => {
                let n = self.statements.len();
                if self.next + 1 == n {
                    self.finished = true;
                    MigrationAction::Finish { result: Ok(()) }
                } else {
                    self.next = self.next + 1;
                    MigrationAction::Execute { statement: copy_statement(&self.statements[self.next]) }
                }
            },
        }
    }
}

/// A copy of a statement.
fn copy_statement(s: &SqlStatement) -> (r: SqlStatement)
    ensures
        r.sql@ == s.sql@,
        param_views(r.params@) == param_views(s.params@),
{
    let mut params: Vec<String> = Vec::new();
    let mut i: usize = 0;
    while i < s.params.len()
        invariant
            i <= s.params@.len(),
            param_views(params@) =~= param_views(s.params@).take(i as int),
        decreases s.params@.len() - i,
    {
        let ghost before = param_views(params@);
        let p = s.params[i].clone();
        assert(p@ == s.params@[i as int]@);
        params.push(p);
        assert(param_views(params@) =~= before.push(s.params@[i as int]@));
        i = i + 1;
    }
    assert(param_views(s.params@).take(s.params@.len() as int) =~= param_views(s.params@));
    SqlStatement { sql: s.sql.clone(), params }
}

/// A database as the migration sees it: each table with its rows.
pub type Tables = Map<Seq<char>, Seq<Seq<Seq<char>>>>;

/// What `CREATE TABLE IF NOT EXISTS <table>` does: create the table empty
/// when it is absent, leave the database as it is when it is present.
pub open spec fn create_if_absent(db: Tables, table: Seq<char>) -> Tables {
    if db.dom().contains(table) {
        db
    } else {
        db.insert(table, Seq::empty())
    }
}

/// The tables the migration statements create, in order.
pub open spec fn migration_tables() -> Seq<Seq<char>> {
    seq!["tenant"@, "user_tenant"@]
}

/// The database after a successful migration run.
pub open spec fn migrated(db: Tables) -> Tables {
    create_if_absent(create_if_absent(db, migration_tables()[0]), migration_tables()[1])
}

/// Migrating twice is migrating once: a second successful run changes
/// nothing, and no run changes a table that existed before it.
pub proof fn law_migration_idempotent(db: Tables)
    ensures
        migrated(migrated(db)) == migrated(db),
        forall|t: Seq<char>| db.dom().contains(t) ==> #[trigger] migrated(db)[t] == db[t]
            && migrated(db).dom().contains(t),
        forall|i: int| 0 <= i < 2 ==> migrated(db).dom().contains(#[trigger] migration_tables()[i]),
{
    assert(migrated(migrated(db)) =~= migrated(db));
}

} // verus!
