//! Domain events of the tenant and user services, as plain values.
//! Timestamps are RFC 3339 text.
use vstd::prelude::*;

verus! {

/// Event: tenant created.
#[derive(Debug, Clone)]
pub struct TenantCreatedEvent {
    pub tenant_id: String,
    pub name: String,
    pub created_by: String,
    pub created_at: String,
}

/// Event: tenant updated.
#[derive(Debug, Clone)]
pub struct TenantUpdatedEvent {
    pub tenant_id: String,
    pub name: Option<String>,
    pub updated_at: String,
}

/// Event: tenant deleted.
#[derive(Debug, Clone)]
pub struct TenantDeletedEvent {
    pub tenant_id: String,
    pub deleted_at: String,
}

/// Event: member added to a tenant.
#[derive(Debug, Clone)]
pub struct MemberAddedEvent {
    pub tenant_id: String,
    pub user_id: String,
    pub role: String,
    pub added_at: String,
}

/// Event: member removed from a tenant.
#[derive(Debug, Clone)]
pub struct MemberRemovedEvent {
    pub tenant_id: String,
    pub user_id: String,
    pub removed_at: String,
}

/// Event: a member's role changed.
#[derive(Debug, Clone)]
pub struct MemberRoleChangedEvent {
    pub tenant_id: String,
    pub user_id: String,
    pub old_role: String,
    pub new_role: String,
    pub changed_at: String,
}

/// Tenant-related domain events.
#[derive(Debug, Clone)]
pub enum TenantEvent {
    TenantCreated(TenantCreatedEvent),
    TenantUpdated(TenantUpdatedEvent),
    TenantDeleted(TenantDeletedEvent),
    MemberAdded(MemberAddedEvent),
    MemberRemoved(MemberRemovedEvent),
    MemberRoleChanged(MemberRoleChangedEvent),
}

/// The type tag of a tenant event: its variant name in snake case.
pub open spec fn tenant_event_type_spec(e: TenantEvent) -> Seq<char> {
    match e {
        TenantEvent::TenantCreated(_) => "tenant_created"@,
        TenantEvent::TenantUpdated(_) => "tenant_updated"@,
        TenantEvent::TenantDeleted(_) => "tenant_deleted"@,
        TenantEvent::MemberAdded(_) => "member_added"@,
        TenantEvent::MemberRemoved(_) => "member_removed"@,
        TenantEvent::MemberRoleChanged(_) => "member_role_changed"@,
    }
}

/// The tenant of a tenant event.
pub open spec fn tenant_event_tenant_spec(e: TenantEvent) -> Seq<char> {
    match e {
        TenantEvent::TenantCreated(x) => x.tenant_id@,
        TenantEvent::TenantUpdated(x) => x.tenant_id@,
        TenantEvent::TenantDeleted(x) => x.tenant_id@,
        TenantEvent::MemberAdded(x) => x.tenant_id@,
        TenantEvent::MemberRemoved(x) => x.tenant_id@,
        TenantEvent::MemberRoleChanged(x) => x.tenant_id@,
    }
}

impl TenantEvent {
    /// The type tag of the event.
    pub fn event_type(&self) -> (r: &'static str)
        ensures
            r@ == tenant_event_type_spec(*self),
    {
        match self {
            TenantEvent::TenantCreated(_) => "tenant_created",
            TenantEvent::TenantUpdated(_) => "tenant_updated",
            TenantEvent::TenantDeleted(_) => "tenant_deleted",
            TenantEvent::MemberAdded(_) => "member_added",
            TenantEvent::MemberRemoved(_) => "member_removed",
            TenantEvent::MemberRoleChanged(_) => "member_role_changed",
        }
    }

    /// The tenant the event is about.
    pub fn tenant_id(&self) -> (r: &String)
        ensures
            r@ == tenant_event_tenant_spec(*self),
    {
        match self {
            TenantEvent::TenantCreated(x) => &x.tenant_id,
            TenantEvent::TenantUpdated(x) => &x.tenant_id,
            TenantEvent::TenantDeleted(x) => &x.tenant_id,
            TenantEvent::MemberAdded(x) => &x.tenant_id,
            TenantEvent::MemberRemoved(x) => &x.tenant_id,
            TenantEvent::MemberRoleChanged(x) => &x.tenant_id,
        }
    }
}

/// Event: user created.
#[derive(Debug, Clone)]
pub struct UserCreatedEvent {
    pub user_id: String,
    pub user_sub: String,
    pub display_name: String,
    pub email: Option<String>,
    pub created_at: String,
}

/// Event: user logged in.
#[derive(Debug, Clone)]
pub struct UserLoggedInEvent {
    pub user_id: String,
    pub user_sub: String,
    pub login_at: String,
}

/// Event: user updated.
#[derive(Debug, Clone)]
pub struct UserUpdatedEvent {
    pub user_id: String,
    pub display_name: Option<String>,
    pub email: Option<String>,
    pub updated_at: String,
}

/// Event: user deleted.
#[derive(Debug, Clone)]
pub struct UserDeletedEvent {
    pub user_id: String,
    pub user_sub: String,
    pub deleted_at: String,
}

/// Event: a tenant was initialised for a user.
#[derive(Debug, Clone)]
pub struct TenantInitializedEvent {
    pub user_id: String,
    pub user_sub: String,
    pub tenant_id: String,
    pub role: String,
    pub created: bool,
    pub initialized_at: String,
}

/// User-related domain events.
#[derive(Debug, Clone)]
pub enum UserEvent {
    UserCreated(UserCreatedEvent),
    UserLoggedIn(UserLoggedInEvent),
    UserUpdated(UserUpdatedEvent),
    UserDeleted(UserDeletedEvent),
    TenantInitialized(TenantInitializedEvent),
}

/// The type tag of a user event: its variant name in snake case.
pub open spec fn user_event_type_spec(e: UserEvent) -> Seq<char> {
    match e {
        UserEvent::UserCreated(_) => "user_created"@,
        UserEvent::UserLoggedIn(_) => "user_logged_in"@,
        UserEvent::UserUpdated(_) => "user_updated"@,
        UserEvent::UserDeleted(_) => "user_deleted"@,
        UserEvent::TenantInitialized(_) => "tenant_initialized"@,
    }
}

/// The user of a user event.
pub open spec fn user_event_user_spec(e: UserEvent) -> Seq<char> {
    match e {
        UserEvent::UserCreated(x) => x.user_id@,
        UserEvent::UserLoggedIn(x) => x.user_id@,
        UserEvent::UserUpdated(x) => x.user_id@,
        UserEvent::UserDeleted(x) => x.user_id@,
        UserEvent::TenantInitialized(x) => x.user_id@,
    }
}

impl UserEvent {
    /// The type tag of the event.
    pub fn event_type(&self) -> (r: &'static str)
        ensures
            r@ == user_event_type_spec(*self),
    {
        match self {
            UserEvent::UserCreated(_) => "user_created",
            UserEvent::UserLoggedIn(_) => "user_logged_in",
            UserEvent::UserUpdated(_) => "user_updated",
            UserEvent::UserDeleted(_) => "user_deleted",
            UserEvent::TenantInitialized(_) => "tenant_initialized",
        }
    }

    /// The user the event is about.
    pub fn user_id(&self) -> (r: &String)
        ensures
            r@ == user_event_user_spec(*self),
    {
        match self {
            UserEvent::UserCreated(x) => &x.user_id,
            UserEvent::UserLoggedIn(x) => &x.user_id,
            UserEvent::UserUpdated(x) => &x.user_id,
            UserEvent::UserDeleted(x) => &x.user_id,
            UserEvent::TenantInitialized(x) => &x.user_id,
        }
    }
}

} // verus!
