//! User-service repositories on LibSQL: the statements sent to the database
//! port for users, tenants and user-tenant bindings, and how returned rows
//! become records. Times are carried as RFC 3339 text in UTC.
use vstd::prelude::*;

use crate::tenant_store::{now_rfc3339, param_views, utc_stamp, SqlStatement};
use crate::user::{UserError, UserTenantBinding};

verus! {

/// A user record.
#[derive(Debug, Clone)]
pub struct User {
    pub id: String,
    pub user_sub: String,
    pub display_name: String,
    pub email: Option<String>,
    pub created_at: String,
    pub last_login_at: Option<String>,
}

/// A tenant record of the user service.
#[derive(Debug, Clone)]
pub struct Tenant {
    pub id: String,
    pub name: String,
    pub created_at: String,
}

/// A row of the user query.
#[derive(Debug, Clone)]
pub struct UserRow {
    pub id: String,
    pub user_sub: String,
    pub display_name: String,
    pub email: Option<String>,
    pub created_at: String,
    pub last_login_at: Option<String>,
}

/// A row of the tenant query.
#[derive(Debug, Clone)]
pub struct TenantRow {
    pub id: String,
    pub name: String,
    pub created_at: String,
}

/// The row returned when a tenant is inserted.
#[derive(Debug, Clone)]
pub struct CreatedTenantRow {
    pub id: String,
}

/// A row of the binding query.
#[derive(Debug, Clone)]
pub struct BindingRow {
    pub id: String,
    pub user_sub: String,
    pub tenant_id: String,
    pub role: String,
    pub joined_at: String,
}

/// View of an optional string.
pub open spec fn opt_view(o: Option<String>) -> Option<Seq<char>> {
    match o {
        Some(s) => Some(s@),
        None => None,
    }
}

/// What chrono makes of `text` read as RFC 3339 and moved to UTC, printed
/// again in RFC 3339; `None` where it is not RFC 3339.
pub uninterp spec fn rfc3339_utc(text: Seq<char>) -> Option<Seq<char>>;

/// What chrono makes of `text` read as `%Y-%m-%d %H:%M:%S` in UTC, printed in
/// RFC 3339; `None` where it does not have that form.
pub uninterp spec fn sql_datetime_utc(text: Seq<char>) -> Option<Seq<char>>;

/// `chrono::DateTime::parse_from_rfc3339`, then `with_timezone(&Utc)` and
/// `to_rfc3339`. Claims the named result, and that a result carries the
/// `+00:00` offset that chrono writes for `Utc`.
#[verifier::external_body]
fn parse_rfc3339_utc(text: &str) -> (r: Option<String>)
    ensures
        opt_view(r) == rfc3339_utc(text@),
        r matches Some(t) ==> utc_stamp(t@),
{
    chrono::DateTime::parse_from_rfc3339(text).ok().map(|dt| dt.with_timezone(&chrono::Utc).to_rfc3339())
}

/// `chrono::NaiveDateTime::parse_from_str` with `%Y-%m-%d %H:%M:%S`, then
/// `and_utc` and `to_rfc3339`. Claims the named result, and that a result
/// carries the `+00:00` offset that chrono writes for `Utc`.
#[verifier::external_body]
fn parse_sql_datetime_utc(text: &str) -> (r: Option<String>)
    ensures
        opt_view(r) == sql_datetime_utc(text@),
        r matches Some(t) ==> utc_stamp(t@),
{
    chrono::NaiveDateTime::parse_from_str(text, "%Y-%m-%d %H:%M:%S").ok().map(|dt| dt.and_utc().to_rfc3339())
}

/// A timestamp as stored: RFC 3339, else SQLite's `datetime('now')` form.
pub open spec fn joined_at_spec(value: Seq<char>) -> Option<Seq<char>> {
    match rfc3339_utc(value) {
        Some(t) => Some(t),
        None => sql_datetime_utc(value),
    }
}

/// Reads a binding's join time: RFC 3339 first, then `%Y-%m-%d %H:%M:%S`.
pub fn parse_joined_at(value: &str) -> (r: Option<String>)
    ensures
        opt_view(r) == joined_at_spec(value@),
        r matches Some(t) ==> utc_stamp(t@),
{
    match parse_rfc3339_utc(value) {
        Some(t) => Some(t),
        None => parse_sql_datetime_utc(value),
    }
}

/// The error for a failed database operation: `"<operation> failed: <cause>"`.
pub fn database_failure(operation: &str, cause: &str) -> (e: UserError)
    ensures
        e matches UserError::Database(m) && m@ == operation@ + " failed: "@ + cause@,
{
    let mut m = crate::text::chars_of(operation);
    crate::text::push_str(&mut m, " failed: ");
    crate::text::push_str(&mut m, cause);
    UserError::Database(crate::text::string_of(&m))
}

/// Clones a string keeping its view.
fn copy_string(s: &String) -> (r: String)
    ensures
        r@ == s@,
{
    s.clone()
}

// ---------------------------------------------------------------------------
// Users
// ---------------------------------------------------------------------------

/// The LibSQL-backed user repository over a database port `P`.
pub struct LibSqlUserRepository<P> {
    db: P,
}

impl<P> LibSqlUserRepository<P> {
    /// The port this repository runs its statements on.
    pub closed spec fn port_view(&self) -> P {
        self.db
    }

    /// A repository over `db`.
    pub fn new(db: P) -> (r: Self)
        ensures
            r.port_view() == db,
    {
        Self { db }
    }

    /// The port this repository runs its statements on.
    pub fn port(&self) -> (p: &P)
        ensures
            *p == self.port_view(),
    {
        &self.db
    }

    /// Reads the user with the given subject (see `user_from_rows`).
    pub fn find_by_sub(&self, user_sub: &str) -> (r: SqlStatement)
        ensures
            r.sql@
                == "SELECT id, user_sub, display_name, email, created_at, last_login_at FROM user WHERE user_sub = ? LIMIT 1"@,
            param_views(r.params@) == seq![user_sub@],
    {
        let mut params: Vec<String> = Vec::new();
        params.push(user_sub.to_string());
        let r = SqlStatement {
            sql: "SELECT id, user_sub, display_name, email, created_at, last_login_at FROM user WHERE user_sub = ? LIMIT 1".to_string(),
            params,
        };
        assert(param_views(r.params@) =~= seq![user_sub@]);
        r
    }

    /// The user of the first row: its creation time read as RFC 3339 (the
    /// current time where it cannot be read), its last login time where it
    /// can be read.
    pub fn user_from_rows(rows: &Vec<UserRow>) -> (r: Option<User>)
        ensures
            rows@.len() == 0 ==> r is None,
            rows@.len() > 0 ==> (r matches Some(u) && {
                let row = rows@[0];
                &&& u.id@ == row.id@ && u.user_sub@ == row.user_sub@
                &&& u.display_name@ == row.display_name@ && opt_view(u.email) == opt_view(row.email)
                &&& (rfc3339_utc(row.created_at@) matches Some(t) ==> u.created_at@ == t)
                &&& utc_stamp(u.created_at@)
                &&& opt_view(u.last_login_at) == match row.last_login_at {
                    Some(l) => rfc3339_utc(l@),
                    None => None,
                }
            }),
    {
        if rows.len() == 0 {
            return None;
        }
        let row = &rows[0];
        let created_at = match parse_rfc3339_utc(row.created_at.as_str()) {
            Some(t) => t,
            None => now_rfc3339(),
        };
        let last_login_at = match &row.last_login_at {
            Some(l) => parse_rfc3339_utc(l.as_str()),
            None => None,
        };
        let email = match &row.email {
            Some(e) => Some(copy_string(e)),
            None => None,
        };
        Some(
            User {
                id: copy_string(&row.id),
                user_sub: copy_string(&row.user_sub),
                display_name: copy_string(&row.display_name),
                email,
                created_at,
                last_login_at,
            },
        )
    }

    /// Inserts a user; a missing email or last login time is sent empty.
    pub fn create_user(&self, user: &User) -> (r: SqlStatement)
        ensures
            r.sql@
                == "INSERT INTO user (id, user_sub, display_name, email, created_at, last_login_at) VALUES (?, ?, ?, ?, ?, ?)"@,
            param_views(r.params@) == seq![
                user.id@,
                user.user_sub@,
                user.display_name@,
                match user.email { Some(e) => e@, None => Seq::<char>::empty() },
                user.created_at@,
                match user.last_login_at { Some(l) => l@, None => Seq::<char>::empty() },
            ],
    {
        let mut params: Vec<String> = Vec::new();
        params.push(copy_string(&user.id));
        params.push(copy_string(&user.user_sub));
        params.push(copy_string(&user.display_name));
        params.push(
            match &user.email {
                Some(e) => copy_string(e),
                None => String::new(),
            },
        );
        params.push(copy_string(&user.created_at));
        params.push(
            match &user.last_login_at {
                Some(l) => copy_string(l),
                None => String::new(),
            },
        );
        let r = SqlStatement {
            sql: "INSERT INTO user (id, user_sub, display_name, email, created_at, last_login_at) VALUES (?, ?, ?, ?, ?, ?)".to_string(),
            params,
        };
        assert(param_views(r.params@) =~= seq![
            user.id@,
            user.user_sub@,
            user.display_name@,
            match user.email { Some(e) => e@, None => Seq::<char>::empty() },
            user.created_at@,
            match user.last_login_at { Some(l) => l@, None => Seq::<char>::empty() },
        ]);
        r
    }

    /// Stamps the user's last login with the current time (the first
    /// parameter).
    pub fn update_last_login(&self, user_sub: &str) -> (r: SqlStatement)
        ensures
            r.sql@ == "UPDATE user SET last_login_at = ? WHERE user_sub = ?"@,
            r.params@.len() == 2,
            utc_stamp(r.params@[0]@),
            r.params@[1]@ == user_sub@,
    {
        let mut params: Vec<String> = Vec::new();
        params.push(now_rfc3339());
        params.push(user_sub.to_string());
        SqlStatement { sql: "UPDATE user SET last_login_at = ? WHERE user_sub = ?".to_string(), params }
    }
}

// ---------------------------------------------------------------------------
// Tenants
// ---------------------------------------------------------------------------

/// The LibSQL-backed tenant repository of the user service over a port `P`.
pub struct LibSqlTenantRepository<P> {
    db: P,
}

impl<P> LibSqlTenantRepository<P> {
    /// The port this repository runs its statements on.
    pub closed spec fn port_view(&self) -> P {
        self.db
    }

    /// A repository over `db`.
    pub fn new(db: P) -> (r: Self)
        ensures
            r.port_view() == db,
    {
        Self { db }
    }

    /// The port this repository runs its statements on.
    pub fn port(&self) -> (p: &P)
        ensures
            *p == self.port_view(),
    {
        &self.db
    }

    /// Inserts a tenant with a database-made id, which the statement returns.
    pub fn create_tenant(&self, name: &str) -> (r: SqlStatement)
        ensures
            r.sql@ == "INSERT INTO tenant (id, name) VALUES (lower(hex(randomblob(16))), ?) RETURNING id"@,
            param_views(r.params@) == seq![name@],
    {
        let mut params: Vec<String> = Vec::new();
        params.push(name.to_string());
        let r = SqlStatement {
            sql: "INSERT INTO tenant (id, name) VALUES (lower(hex(randomblob(16))), ?) RETURNING id".to_string(),
            params,
        };
        assert(param_views(r.params@) =~= seq![name@]);
        r
    }

    /// The id of the created tenant: that of the first row returned.
    pub fn created_tenant_id(rows: &Vec<CreatedTenantRow>) -> (r: Result<String, UserError>)
        ensures
            rows@.len() > 0 ==> (r matches Ok(id) && id@ == rows@[0].id@),
            rows@.len() == 0 ==> (r matches Err(UserError::Database(m)) && m@
                == "failed to create tenant"@),
    {
        if rows.len() == 0 {
            Err(UserError::Database("failed to create tenant".to_string()))
        } else {
            Ok(copy_string(&rows[0].id))
        }
    }

    /// Reads the tenant with the given id (see `tenant_from_rows`).
    pub fn find_by_id(&self, tenant_id: &str) -> (r: SqlStatement)
        ensures
            r.sql@ == "SELECT id, name, created_at FROM tenant WHERE id = ? LIMIT 1"@,
            param_views(r.params@) == seq![tenant_id@],
    {
        let mut params: Vec<String> = Vec::new();
        params.push(tenant_id.to_string());
        let r = SqlStatement {
            sql: "SELECT id, name, created_at FROM tenant WHERE id = ? LIMIT 1".to_string(),
            params,
        };
        assert(param_views(r.params@) =~= seq![tenant_id@]);
        r
    }

    /// The tenant of the first row; its creation time read as RFC 3339, the
    /// current time where it cannot be read.
    pub fn tenant_from_rows(rows: &Vec<TenantRow>) -> (r: Option<Tenant>)
        ensures
            rows@.len() == 0 ==> r is None,
            rows@.len() > 0 ==> (r matches Some(t) && t.id@ == rows@[0].id@ && t.name@
                == rows@[0].name@ && (rfc3339_utc(rows@[0].created_at@) matches Some(c)
                ==> t.created_at@ == c) && utc_stamp(t.created_at@)),
    {
        if rows.len() == 0 {
            return None;
        }
        let row = &rows[0];
        let created_at = match parse_rfc3339_utc(row.created_at.as_str()) {
            Some(t) => t,
            None => now_rfc3339(),
        };
        Some(Tenant { id: copy_string(&row.id), name: copy_string(&row.name), created_at })
    }
}

// ---------------------------------------------------------------------------
// Bindings
// ---------------------------------------------------------------------------

/// The LibSQL-backed user-tenant binding repository over a port `P`.
pub struct LibSqlUserTenantRepository<P> {
    db: P,
}

impl<P> LibSqlUserTenantRepository<P> {
    /// The port this repository runs its statements on.
    pub closed spec fn port_view(&self) -> P {
        self.db
    }

    /// A repository over `db`.
    pub fn new(db: P) -> (r: Self)
        ensures
            r.port_view() == db,
    {
        Self { db }
    }

    /// The port this repository runs its statements on.
    pub fn port(&self) -> (p: &P)
        ensures
            *p == self.port_view(),
    {
        &self.db
    }

    /// Reads a user's binding (see `binding_from_rows`).
    pub fn find_user_tenant(&self, user_sub: &str) -> (r: SqlStatement)
        ensures
            r.sql@
                == "SELECT id, user_sub, tenant_id, role, joined_at FROM user_tenant WHERE user_sub = ? LIMIT 1"@,
            param_views(r.params@) == seq![user_sub@],
    {
        let mut params: Vec<String> = Vec::new();
        params.push(user_sub.to_string());
        let r = SqlStatement {
            sql: "SELECT id, user_sub, tenant_id, role, joined_at FROM user_tenant WHERE user_sub = ? LIMIT 1".to_string(),
            params,
        };
        assert(param_views(r.params@) =~= seq![user_sub@]);
        r
    }

    /// The binding of the first row; its join time read by `parse_joined_at`,
    /// the current time where it cannot be read.
    pub fn binding_from_rows(rows: &Vec<BindingRow>) -> (r: Option<UserTenantBinding>)
        ensures
            rows@.len() == 0 ==> r is None,
            rows@.len() > 0 ==> (r matches Some(b) && b.id@ == rows@[0].id@ && b.user_sub@
                == rows@[0].user_sub@ && b.tenant_id@ == rows@[0].tenant_id@ && b.role@
                == rows@[0].role@ && (joined_at_spec(rows@[0].joined_at@) matches Some(j)
                ==> b.joined_at@ == j) && utc_stamp(b.joined_at@)),
    {
        if rows.len() == 0 {
            return None;
        }
        let row = &rows[0];
        let joined_at = match parse_joined_at(row.joined_at.as_str()) {
            Some(t) => t,
            None => now_rfc3339(),
        };
        Some(
            UserTenantBinding {
                id: copy_string(&row.id),
                user_sub: copy_string(&row.user_sub),
                tenant_id: copy_string(&row.tenant_id),
                role: copy_string(&row.role),
                joined_at,
            },
        )
    }

    /// Inserts a binding with a database-made id, joined now.
    pub fn create_binding(&self, user_sub: &str, tenant_id: &str, role: &str) -> (r: SqlStatement)
        ensures
            r.sql@
                == "INSERT INTO user_tenant (id, user_sub, tenant_id, role, joined_at) VALUES (lower(hex(randomblob(16))), ?, ?, ?, datetime('now'))"@,
            param_views(r.params@) == seq![user_sub@, tenant_id@, role@],
    {
        let mut params: Vec<String> = Vec::new();
        params.push(user_sub.to_string());
        params.push(tenant_id.to_string());
        params.push(role.to_string());
        let r = SqlStatement {
            sql: "INSERT INTO user_tenant (id, user_sub, tenant_id, role, joined_at) VALUES (lower(hex(randomblob(16))), ?, ?, ?, datetime('now'))".to_string(),
            params,
        };
        assert(param_views(r.params@) =~= seq![user_sub@, tenant_id@, role@]);
        r
    }

    /// The created binding, as read back after the insert; an error when the
    /// read finds none.
    pub fn created_binding(found: Option<UserTenantBinding>) -> (r: Result<UserTenantBinding, UserError>)
        ensures
            found matches Some(b) ==> (r matches Ok(c) && c == b),
            found is None ==> (r matches Err(UserError::Database(m)) && m@
                == "failed to fetch created binding"@),
    {
        match found {
            Some(b) => Ok(b),
            None => Err(UserError::Database("failed to fetch created binding".to_string())),
        }
    }
}

} // verus!
