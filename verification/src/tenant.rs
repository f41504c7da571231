//! Tenant service: tenant lifecycle rules and the tenant-initialisation
//! workflow, as decisions over what the tenant repository answers.
//!
//! The repository itself is an outside service: the caller performs each
//! action that the workflow asks for and hands the answer back as an event.
use vstd::prelude::*;

verus! {

/// Role given to the user who initialises a tenant.
pub open spec fn owner_role() -> Seq<char> {
    "owner"@
}

/// Input for creating a new tenant.
#[derive(Debug, Clone)]
pub struct CreateTenantInput {
    pub id: String,
    pub name: String,
}

/// A tenant as the repository stores it.
#[derive(Debug, Clone)]
pub struct Tenant {
    pub id: String,
    pub name: String,
    pub created_at: String,
}

/// Error of tenant domain operations.
#[derive(Debug, Clone)]
pub enum TenantDomainError {
    InvalidInput(String),
}

/// Error of the tenant service; `Database` carries the repository's message.
#[derive(Debug, Clone)]
pub enum TenantServiceError {
    Database(String),
    NotFound(String),
    InvalidInput(String),
}

/// A user's binding to a tenant.
#[derive(Debug, Clone)]
pub struct UserTenantBinding {
    pub tenant_id: String,
    pub role: String,
}

/// Result of initialising a tenant for a user.
#[derive(Debug, Clone)]
pub struct InitTenantResult {
    pub tenant_id: String,
    pub role: String,
    pub created: bool,
}

/// Message of the error for an empty tenant id.
pub open spec fn empty_id_message() -> Seq<char> {
    "tenant id cannot be empty"@
}

/// Message of the error for an empty tenant name.
pub open spec fn empty_name_message() -> Seq<char> {
    "tenant name cannot be empty"@
}

/// Checks the input of `create_tenant`: the id and then the name must be
/// non-empty. On success the input goes to the repository unchanged.
pub fn validate_create_tenant(input: &CreateTenantInput) -> (r: Result<(), TenantServiceError>)
    ensures
        input.id@.len() == 0 ==> (r matches Err(TenantServiceError::InvalidInput(m)) && m@
            == empty_id_message()),
        input.id@.len() > 0 && input.name@.len() == 0 ==> (r matches Err(
            TenantServiceError::InvalidInput(m),
        ) && m@ == empty_name_message()),
        input.id@.len() > 0 && input.name@.len() > 0 ==> r is Ok,
{
    if input.id.as_str().is_empty() {
        return Err(TenantServiceError::InvalidInput("tenant id cannot be empty".to_string()));
    }
    if input.name.as_str().is_empty() {
        return Err(TenantServiceError::InvalidInput("tenant name cannot be empty".to_string()));
    }
    Ok(())
}

/// Maps a repository failure to the service error.
pub fn repository_failure(message: String) -> (r: TenantServiceError)
    ensures
        r matches TenantServiceError::Database(m) && m@ == message@,
{
    TenantServiceError::Database(message)
}

// ---------------------------------------------------------------------------
// Tenant initialisation workflow
// ---------------------------------------------------------------------------

/// What the workflow asks the caller to do next.
#[derive(Debug)]
pub enum InitTenantAction {
    /// Look up the user's binding in the repository.
    FindUserTenant { user_sub: String },
    /// Create this tenant in the repository.
    CreateTenant { input: CreateTenantInput },
    /// Bind the user to the tenant with the role.
    CreateBinding { user_sub: String, tenant_id: String, role: String },
    /// The workflow is over with this result.
    Finish { result: Result<InitTenantResult, TenantServiceError> },
}

/// What the caller reports back.
#[derive(Debug)]
pub enum InitTenantEvent {
    /// Begin the workflow.
    Start,
    /// Answer of the binding lookup (`Err` carries the repository message).
    BindingLookedUp { found: Result<Option<UserTenantBinding>, String> },
    /// Answer of the tenant creation.
    TenantCreated { tenant: Result<Tenant, String> },
    /// Answer of the binding creation.
    BindingCreated { done: Result<(), String> },
}

/// Where the workflow stands.
#[derive(Debug, Clone)]
pub enum InitTenantStage {
    Ready,
    AwaitingBinding,
    AwaitingTenant,
    AwaitingBindingCreation { tenant_id: String },
    Finished,
}

/// The tenant-initialisation workflow for one user.
#[derive(Debug, Clone)]
pub struct InitTenantFlow {
    pub user_sub: String,
    pub tenant_name: String,
    pub stage: InitTenantStage,
}

/// The event is the one the stage waits for.
pub open spec fn accepts_spec(stage: InitTenantStage, event: InitTenantEvent) -> bool {
    match (stage, event) {
        (InitTenantStage::Ready, InitTenantEvent::Start) => true,
        (InitTenantStage::AwaitingBinding, InitTenantEvent::BindingLookedUp { .. }) => true,
        (InitTenantStage::AwaitingTenant, InitTenantEvent::TenantCreated { .. }) => true,
        (
            InitTenantStage::AwaitingBindingCreation { .. },
            InitTenantEvent::BindingCreated { .. },
        ) => true,
        _ => false,
    }
}

/// The action `a` finishes with an `Ok` result of these fields.
pub open spec fn finishes_ok(a: InitTenantAction, tenant_id: Seq<char>, role: Seq<char>, created: bool) -> bool {
    &&& a matches InitTenantAction::Finish { result: Ok(res) }
    &&& res.tenant_id@ == tenant_id
    &&& res.role@ == role
    &&& res.created == created
}

/// The action `a` finishes with a repository failure carrying `message`.
pub open spec fn finishes_database(a: InitTenantAction, message: Seq<char>) -> bool {
    &&& a matches InitTenantAction::Finish { result: Err(TenantServiceError::Database(m)) }
    &&& m@ == message
}

/// One step of the workflow: the flow `f` takes `event` to the flow `g`
/// and asks for the action `a`.
pub open spec fn tenant_step(f: InitTenantFlow, event: InitTenantEvent, g: InitTenantFlow, a: InitTenantAction) -> bool {
    &&& (g.user_sub@ == f.user_sub@)
    &&& (g.tenant_name@ == f.tenant_name@)
    &&& (event is Start ==> (g.stage is AwaitingBinding && (
            a matches InitTenantAction::FindUserTenant { user_sub }
                && user_sub@ == f.user_sub@)))
    &&& (event matches InitTenantEvent::BindingLookedUp { found: Err(m) } ==> (
            g.stage is Finished && finishes_database(a, m@)))
    &&& (event matches InitTenantEvent::BindingLookedUp { found: Ok(Some(b)) } ==> (
            g.stage is Finished && finishes_ok(a, b.tenant_id@, b.role@, false)))
    &&& (event matches InitTenantEvent::BindingLookedUp { found: Ok(None) } ==> (if f.tenant_name@.len() == 0 {
                g.stage is Finished && (a matches InitTenantAction::Finish {
                    result: Err(TenantServiceError::InvalidInput(m)),
                } && m@ == empty_name_message())
            } else {
                g.stage is AwaitingTenant && (a matches InitTenantAction::CreateTenant {
                    input,
                } && v4_uuid_text(input.id@) && input.name@ == f.tenant_name@)
            }))
    &&& (event matches InitTenantEvent::TenantCreated { tenant: Err(m) } ==> (
            g.stage is Finished && finishes_database(a, m@)))
    &&& (event matches InitTenantEvent::TenantCreated { tenant: Ok(t) } ==> ((
            g.stage matches InitTenantStage::AwaitingBindingCreation { tenant_id }
                && tenant_id@ == t.id@) && (a matches InitTenantAction::CreateBinding {
                user_sub,
                tenant_id,
                role,
            } && user_sub@ == f.user_sub@ && tenant_id@ == t.id@ && role@
                == owner_role())))
    &&& (event matches InitTenantEvent::BindingCreated { done: Err(m) } ==> (
            g.stage is Finished && finishes_database(a, m@)))
    &&& (event matches InitTenantEvent::BindingCreated { done: Ok(_) } ==> (
            g.stage is Finished && (f.stage matches InitTenantStage::AwaitingBindingCreation {
                tenant_id,
            } && finishes_ok(a, tenant_id@, owner_role(), true))))
}

impl InitTenantFlow {
    /// A workflow for `user_sub` that would name a new tenant `tenant_name`.
    pub fn new(user_sub: String, tenant_name: String) -> (f: InitTenantFlow)
        ensures
            f.user_sub@ == user_sub@,
            f.tenant_name@ == tenant_name@,
            f.stage is Ready,
    {
        InitTenantFlow { user_sub, tenant_name, stage: InitTenantStage::Ready }
    }

    /// Whether `event` is what the workflow waits for.
    pub fn accepts(&self, event: &InitTenantEvent) -> (r: bool)
        ensures
            r == accepts_spec(self.stage, *event),
    {
        match (&self.stage, event) {
            (InitTenantStage::Ready, InitTenantEvent::Start) => true,
            (InitTenantStage::AwaitingBinding, InitTenantEvent::BindingLookedUp { .. }) => true,
            (InitTenantStage::AwaitingTenant, InitTenantEvent::TenantCreated { .. }) => true,
            (
                InitTenantStage::AwaitingBindingCreation { .. },
                InitTenantEvent::BindingCreated { .. },
            ) => true,
            _ => false,
        }
    }

    /// Advances the workflow by one event and says what to do next.
    ///
    /// A user who already has a binding gets that binding back, not
    /// created; otherwise a fresh id is generated here, a tenant with that id
    /// and the given name is created (after the checks of
    /// `validate_create_tenant`) and the user is bound to it as owner. Any repository failure ends the workflow with
    /// that failure.
    pub fn step(&mut self, event: InitTenantEvent) -> (a: InitTenantAction)
        requires
            accepts_spec(old(self).stage, event),
        ensures
            tenant_step(*old(self), event, *final(self), a),
    {
        let mut stage = InitTenantStage::Finished;
        std::mem::swap(&mut stage, &mut self.stage);
        match event {
            InitTenantEvent::Start => {
                self.stage = InitTenantStage::AwaitingBinding;
                InitTenantAction::FindUserTenant { user_sub: self.user_sub.clone() }
            },
            InitTenantEvent::BindingLookedUp { found } => match found {
                Err(m) => InitTenantAction::Finish { result: Err(TenantServiceError::Database(m)) },
                Ok(Some(b)) => InitTenantAction::Finish {
                    result: Ok(InitTenantResult { tenant_id: b.tenant_id, role: b.role, created: false }),
                },
                Ok(None) => {
                    let input = CreateTenantInput { id: generate_tenant_id(), name: self.tenant_name.clone() };
                    match validate_create_tenant(&input) {
                        Err(e) => InitTenantAction::Finish { result: Err(e) },
                        Ok(()) => {
                            self.stage = InitTenantStage::AwaitingTenant;
                            InitTenantAction::CreateTenant { input }
                        },
                    }
                },
            },
            InitTenantEvent::TenantCreated { tenant } => match tenant {
                Err(m) => InitTenantAction::Finish { result: Err(TenantServiceError::Database(m)) },
                Ok(t) => {
                    self.stage = InitTenantStage::AwaitingBindingCreation { tenant_id: t.id.clone() };
                    InitTenantAction::CreateBinding {
                        user_sub: self.user_sub.clone(),
                        tenant_id: t.id,
                        role: "owner".to_string(),
                    }
                },
            },
            InitTenantEvent::BindingCreated { done } => match done {
                Err(m) => InitTenantAction::Finish { result: Err(TenantServiceError::Database(m)) },
                Ok(()) => {
                    let tenant_id = match stage {
                        InitTenantStage::AwaitingBindingCreation { tenant_id } => tenant_id,
                        _ => String::new(),
                    };
                    InitTenantAction::Finish {
                        result: Ok(InitTenantResult { tenant_id, role: "owner".to_string(), created: true }),
                    }
                },
            },
        }
    }
}

/// A lower-case hexadecimal digit.
pub open spec fn is_lower_hex(c: char) -> bool {
    ('0' <= c && c <= '9') || ('a' <= c && c <= 'f')
}

/// The text of a random (version 4) UUID as `to_string` writes it: 36
/// characters, hyphens at 8, 13, 18 and 23, the version digit `4` at 14,
/// and lower-case hexadecimal digits everywhere else.
pub open spec fn v4_uuid_text(s: Seq<char>) -> bool {
    &&& s.len() == 36
    &&& forall|i: int|
        0 <= i < 36 ==> (if i == 8 || i == 13 || i == 18 || i == 23 {
            s[i] == '-'
        } else {
            is_lower_hex(#[trigger] s[i])
        })
    &&& s[14] == '4'
}

/// Generates a fresh tenant id: `uuid::Uuid::new_v4().to_string()`.
/// Claims the shape that the uuid crate's hyphenated formatter writes for a
/// version-4 value; which random bits fill the other digits is left unsaid.
#[verifier::external_body]
pub(crate) fn generate_tenant_id() -> (id: String)
    ensures
        v4_uuid_text(id@),
{
    uuid::Uuid::new_v4().to_string()
}


/// Initialising twice for one user. The first run ends by creating a tenant
/// and binding the user to it as owner, finishing with that tenant, created.
/// Once the repository answers the user's lookup with the binding that run
/// wrote, a second run for the same user finishes with the same tenant and
/// role, not created, and asks for nothing but the lookup: no tenant and no
/// binding is created again.
pub proof fn law_init_tenant_idempotent(
    f2: InitTenantFlow,
    t: Tenant,
    f3: InitTenantFlow,
    a3: InitTenantAction,
    f4: InitTenantFlow,
    a4: InitTenantAction,
    g0: InitTenantFlow,
    g1: InitTenantFlow,
    b1: InitTenantAction,
    found: UserTenantBinding,
    g2: InitTenantFlow,
    b2: InitTenantAction,
)
    requires
        accepts_spec(f2.stage, InitTenantEvent::TenantCreated { tenant: Ok(t) }),
        tenant_step(f2, InitTenantEvent::TenantCreated { tenant: Ok(t) }, f3, a3),
        accepts_spec(f3.stage, InitTenantEvent::BindingCreated { done: Ok(()) }),
        tenant_step(f3, InitTenantEvent::BindingCreated { done: Ok(()) }, f4, a4),
        (a3 matches InitTenantAction::CreateBinding { tenant_id, role, .. } && found.tenant_id@
            == tenant_id@ && found.role@ == role@),
        g0.stage is Ready,
        g0.user_sub@ == f2.user_sub@,
        tenant_step(g0, InitTenantEvent::Start, g1, b1),
        accepts_spec(g1.stage, InitTenantEvent::BindingLookedUp { found: Ok(Some(found)) }),
        tenant_step(g1, InitTenantEvent::BindingLookedUp { found: Ok(Some(found)) }, g2, b2),
    ensures
        a3 matches InitTenantAction::CreateBinding { user_sub, role, .. } && user_sub@
            == f2.user_sub@ && role@ == owner_role(),
        a4 matches InitTenantAction::Finish { result: Ok(r1) } && r1.created && r1.tenant_id@
            == t.id@ && (b1 matches InitTenantAction::FindUserTenant { user_sub } && user_sub@
            == f2.user_sub@) && (b2 matches InitTenantAction::Finish { result: Ok(r2) }
            && r2.tenant_id@ == r1.tenant_id@ && r2.role@ == r1.role@ && !r2.created),
        g2.stage is Finished,
{
}

} // verus!
