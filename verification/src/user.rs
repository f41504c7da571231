//! User service: first-login tenant initialisation, as decisions over what
//! the user, tenant and binding repositories answer.
//!
//! The repositories are outside services: the caller performs each action
//! that the workflow asks for and hands the answer back as an event.
use vstd::prelude::*;

verus! {

/// Error of the user service.
#[derive(Debug, Clone)]
pub enum UserError {
    NotFound(String),
    InvalidInput(String),
    Database(String),
    Unauthorized(String),
}

/// Input for tenant initialisation.
#[derive(Debug, Clone)]
pub struct InitTenantInput {
    pub user_sub: String,
    pub user_name: String,
    pub email: Option<String>,
}

/// Result of tenant initialisation.
#[derive(Debug, Clone)]
pub struct InitTenantResult {
    pub tenant_id: String,
    pub role: String,
    pub created: bool,
}

/// Request to initialise a tenant for a user (API contract).
#[derive(Debug, Clone)]
pub struct InitTenantRequest {
    pub user_sub: String,
    pub user_name: String,
}

/// Response from tenant initialisation (API contract).
#[derive(Debug, Clone)]
pub struct InitTenantResponse {
    pub tenant_id: String,
    pub role: String,
    pub created: bool,
}

/// A user-tenant binding as the binding repository returns it; `joined_at`
/// is the time in RFC 3339.
#[derive(Debug, Clone)]
pub struct UserTenantBinding {
    pub id: String,
    pub user_sub: String,
    pub tenant_id: String,
    pub role: String,
    pub joined_at: String,
}

/// A user record to create, stamped as created and logged in now.
#[derive(Debug, Clone)]
pub struct NewUser {
    pub id: String,
    pub user_sub: String,
    pub display_name: String,
    pub email: Option<String>,
    pub created_at: String,
    pub last_login_at: Option<String>,
}

/// Lower-case hexadecimal digit for `d` (0 to 15).
pub open spec fn hex_digit(d: nat) -> char {
    seq!['0', '1', '2', '3', '4', '5', '6', '7', '8', '9', 'a', 'b', 'c', 'd', 'e', 'f'][d as int]
}

/// Two lower-case hexadecimal digits of each byte (`format!("{:02x}")`).
pub open spec fn hex_of(bytes: Seq<u8>) -> Seq<char>
    decreases bytes.len(),
{
    if bytes.len() == 0 {
        Seq::empty()
    } else {
        hex_of(bytes.drop_last()) + seq![
            hex_digit((bytes.last() / 16) as nat),
            hex_digit((bytes.last() % 16) as nat),
        ]
    }
}

fn hex_digit_char(d: u8) -> (c: char)
    requires
        d < 16,
    ensures
        c == hex_digit(d as nat),
{
    let digits = ['0', '1', '2', '3', '4', '5', '6', '7', '8', '9', 'a', 'b', 'c', 'd', 'e', 'f'];
    assert(digits@ =~= seq![
        '0',
        '1',
        '2',
        '3',
        '4',
        '5',
        '6',
        '7',
        '8',
        '9',
        'a',
        'b',
        'c',
        'd',
        'e',
        'f',
    ]);
    digits[d as usize]
}

/// Lower-case hexadecimal text of `bytes`, two digits per byte.
pub fn hex_id(bytes: &[u8]) -> (s: String)
    ensures
        s@ == hex_of(bytes@),
{
    let mut out: Vec<char> = Vec::new();
    let mut i: usize = 0;
    while i < bytes.len()
        invariant
            i <= bytes@.len(),
            out@ == hex_of(bytes@.take(i as int)),
        decreases bytes@.len() - i,
    {
        let b = bytes[i];
        out.push(hex_digit_char(b / 16));
        out.push(hex_digit_char(b % 16));
        assert(bytes@.take(i + 1).drop_last() == bytes@.take(i as int));
        assert(out@ =~= hex_of(bytes@.take(i + 1)));
        i = i + 1;
    }
    assert(bytes@.take(bytes@.len() as int) == bytes@);
    crate::text::string_of(&out)
}

/// Sixteen random bytes from `rand::random`. Nothing is claimed of them.
#[verifier::external_body]
fn random_bytes() -> (b: [u8; 16]) {
    std::array::from_fn(|_| rand::random::<u8>())
}

/// A fresh user id: 32 lower-case hexadecimal digits of 16 random bytes.
pub fn generate_id() -> (id: String)
    ensures
        exists|b: Seq<u8>| b.len() == 16 && id@ == hex_of(b),
{
    let bytes = random_bytes();
    let id = hex_id(&bytes);
    assert(bytes@.len() == 16);
    id
}

/// Message of the error for an empty subject.
pub open spec fn empty_sub_message() -> Seq<char> {
    "user_sub cannot be empty"@
}

/// Message of the error for an empty user name.
pub open spec fn empty_name_message() -> Seq<char> {
    "user_name cannot be empty"@
}

// ---------------------------------------------------------------------------
// Tenant initialisation workflow
// ---------------------------------------------------------------------------

/// What the workflow asks the caller to do next.
#[derive(Debug)]
pub enum UserInitAction {
    /// Look up the user's tenant binding.
    FindUserTenant { user_sub: String },
    /// Update the user's last login time; the answer does not matter.
    UpdateLastLogin { user_sub: String },
    /// Look up the user by subject.
    FindUser { user_sub: String },
    /// Create the user record (stamped with the current time).
    CreateUser { user: NewUser },
    /// Create a tenant with this name.
    CreateTenant { name: String },
    /// Bind the user to the tenant with the role.
    CreateBinding { user_sub: String, tenant_id: String, role: String },
    /// The workflow is over with this result.
    Finish { result: Result<InitTenantResult, UserError> },
}

/// What the caller reports back.
#[derive(Debug)]
pub enum UserInitEvent {
    Start,
    BindingLookedUp { found: Result<Option<UserTenantBinding>, UserError> },
    LastLoginUpdated,
    UserLookedUp { exists: Result<bool, UserError> },
    UserCreated { done: Result<(), UserError> },
    TenantCreated { tenant_id: Result<String, UserError> },
    BindingCreated { binding: Result<UserTenantBinding, UserError> },
}

/// Where the workflow stands.
#[derive(Debug)]
pub enum UserInitStage {
    Ready,
    AwaitingBinding,
    /// The binding exists; the login update is on its way, then this result.
    AwaitingLoginThenFinish { tenant_id: String, role: String },
    AwaitingUser,
    AwaitingUserCreation,
    /// The user exists; the login update is on its way, then the tenant.
    AwaitingLoginThenTenant,
    AwaitingTenant,
    AwaitingBinding2,
    Finished,
}

/// The tenant-initialisation workflow for one login.
#[derive(Debug)]
pub struct UserInitFlow {
    pub input: InitTenantInput,
    pub stage: UserInitStage,
}

/// The event is the one the stage waits for.
pub open spec fn user_accepts(stage: UserInitStage, event: UserInitEvent) -> bool {
    match (stage, event) {
        (UserInitStage::Ready, UserInitEvent::Start) => true,
        (UserInitStage::AwaitingBinding, UserInitEvent::BindingLookedUp { .. }) => true,
        (UserInitStage::AwaitingLoginThenFinish { .. }, UserInitEvent::LastLoginUpdated) => true,
        (UserInitStage::AwaitingUser, UserInitEvent::UserLookedUp { .. }) => true,
        (UserInitStage::AwaitingUserCreation, UserInitEvent::UserCreated { .. }) => true,
        (UserInitStage::AwaitingLoginThenTenant, UserInitEvent::LastLoginUpdated) => true,
        (UserInitStage::AwaitingTenant, UserInitEvent::TenantCreated { .. }) => true,
        (UserInitStage::AwaitingBinding2, UserInitEvent::BindingCreated { .. }) => true,
        _ => false,
    }
}

/// The action finishes with an `Ok` result of these fields.
pub open spec fn user_finishes_ok(a: UserInitAction, tenant_id: Seq<char>, role: Seq<char>, created: bool) -> bool {
    &&& a matches UserInitAction::Finish { result: Ok(res) }
    &&& res.tenant_id@ == tenant_id
    &&& res.role@ == role
    &&& res.created == created
}

/// The action finishes with exactly the error `e`.
pub open spec fn user_finishes_err(a: UserInitAction, e: UserError) -> bool {
    a matches UserInitAction::Finish { result: Err(x) } && x == e
}

/// One step of the workflow: the flow `f` takes `event` to the flow `g`
/// and asks for the action `a`.
pub open spec fn user_step(f: UserInitFlow, event: UserInitEvent, g: UserInitFlow, a: UserInitAction) -> bool {
    &&& (g.input == f.input)
    &&& (event is Start ==> (if f.input.user_sub@.len() == 0 {
                g.stage is Finished && (a matches UserInitAction::Finish {
                    result: Err(UserError::InvalidInput(m)),
                } && m@ == empty_sub_message())
            } else if f.input.user_name@.len() == 0 {
                g.stage is Finished && (a matches UserInitAction::Finish {
                    result: Err(UserError::InvalidInput(m)),
                } && m@ == empty_name_message())
            } else {
                g.stage is AwaitingBinding && (a matches UserInitAction::FindUserTenant {
                    user_sub,
                } && user_sub@ == f.input.user_sub@)
            }))
    &&& (event matches UserInitEvent::BindingLookedUp { found: Err(e) } ==> (
            g.stage is Finished && user_finishes_err(a, e)))
    &&& (event matches UserInitEvent::BindingLookedUp { found: Ok(Some(b)) } ==> ((
            g.stage matches UserInitStage::AwaitingLoginThenFinish { tenant_id, role }
                && tenant_id@ == b.tenant_id@ && role@ == b.role@) && (
            a matches UserInitAction::UpdateLastLogin { user_sub } && user_sub@ == f.input.user_sub@)))
    &&& (event matches UserInitEvent::BindingLookedUp { found: Ok(None) } ==> (
            g.stage is AwaitingUser && (a matches UserInitAction::FindUser { user_sub }
                && user_sub@ == f.input.user_sub@)))
    &&& (f.stage matches UserInitStage::AwaitingLoginThenFinish { tenant_id, role }
                ==> (g.stage is Finished && user_finishes_ok(
                a,
                tenant_id@,
                role@,
                false,
            )))
    &&& (event matches UserInitEvent::UserLookedUp { exists: Err(e) } ==> (
            g.stage is Finished && user_finishes_err(a, e)))
    &&& (event matches UserInitEvent::UserLookedUp { exists: Ok(false) } ==> (
            g.stage is AwaitingUserCreation && (a matches UserInitAction::CreateUser {
                user,
            } && user.user_sub@ == f.input.user_sub@ && user.display_name@ == f.input.user_name@ && user.email == f.input.email && user.id@.len() == 32 && (exists|b: Seq<u8>|
                b.len() == 16 && user.id@ == hex_of(b)) && crate::tenant_store::utc_stamp(
                user.created_at@,
            ) && (user.last_login_at matches Some(l) && l@ == user.created_at@))))
    &&& (event matches UserInitEvent::UserLookedUp { exists: Ok(true) } ==> (
            g.stage is AwaitingLoginThenTenant && (
            a matches UserInitAction::UpdateLastLogin { user_sub } && user_sub@ == f.input.user_sub@)))
    &&& (event matches UserInitEvent::UserCreated { done: Err(e) } ==> (
            g.stage is Finished && user_finishes_err(a, e)))
    &&& (((event matches UserInitEvent::UserCreated { done: Ok(_) }) || (
            f.stage is AwaitingLoginThenTenant && event is LastLoginUpdated)) ==> (
            g.stage is AwaitingTenant && (a matches UserInitAction::CreateTenant { name }
                && name@ == f.input.user_name@)))
    &&& (event matches UserInitEvent::TenantCreated { tenant_id: Err(e) } ==> (
            g.stage is Finished && user_finishes_err(a, e)))
    &&& (event matches UserInitEvent::TenantCreated { tenant_id: Ok(t) } ==> (
            g.stage is AwaitingBinding2 && (a matches UserInitAction::CreateBinding {
                user_sub,
                tenant_id,
                role,
            } && user_sub@ == f.input.user_sub@ && tenant_id@ == t@ && role@
                == crate::tenant::owner_role())))
    &&& (event matches UserInitEvent::BindingCreated { binding: Err(e) } ==> (
            g.stage is Finished && user_finishes_err(a, e)))
    &&& (event matches UserInitEvent::BindingCreated { binding: Ok(b) } ==> (
            g.stage is Finished && user_finishes_ok(a, b.tenant_id@, b.role@, true)))
}

impl UserInitFlow {
    /// A workflow for one login.
    pub fn new(input: InitTenantInput) -> (f: UserInitFlow)
        ensures
            f.input == input,
            f.stage is Ready,
    {
        UserInitFlow { input, stage: UserInitStage::Ready }
    }

    /// Whether `event` is what the workflow waits for.
    pub fn accepts(&self, event: &UserInitEvent) -> (r: bool)
        ensures
            r == user_accepts(self.stage, *event),
    {
        match (&self.stage, event) {
            (UserInitStage::Ready, UserInitEvent::Start) => true,
            (UserInitStage::AwaitingBinding, UserInitEvent::BindingLookedUp { .. }) => true,
            (UserInitStage::AwaitingLoginThenFinish { .. }, UserInitEvent::LastLoginUpdated) => true,
            (UserInitStage::AwaitingUser, UserInitEvent::UserLookedUp { .. }) => true,
            (UserInitStage::AwaitingUserCreation, UserInitEvent::UserCreated { .. }) => true,
            (UserInitStage::AwaitingLoginThenTenant, UserInitEvent::LastLoginUpdated) => true,
            (UserInitStage::AwaitingTenant, UserInitEvent::TenantCreated { .. }) => true,
            (UserInitStage::AwaitingBinding2, UserInitEvent::BindingCreated { .. }) => true,
            _ => false,
        }
    }

    /// Advances the workflow by one event and says what to do next.
    ///
    /// The subject and then the name must be non-empty. A user who already
    /// has a binding gets it back, not created, after a login update whose
    /// outcome is ignored. Otherwise the user record is created if missing
    /// (or its login time updated, outcome ignored), a tenant named after the
    /// user is created, the user is bound to it as owner, and the binding
    /// that the repository returns is the result, created. Any repository
    /// error ends the workflow with that error.
    pub fn step(&mut self, event: UserInitEvent) -> (a: UserInitAction)
        requires
            user_accepts(old(self).stage, event),
        ensures
            user_step(*old(self), event, *final(self), a),
    {
        let mut stage = UserInitStage::Finished;
        std::mem::swap(&mut stage, &mut self.stage);
        match event {
            UserInitEvent::Start => {
                if self.input.user_sub.as_str().is_empty() {
                    return UserInitAction::Finish {
                        result: Err(UserError::InvalidInput("user_sub cannot be empty".to_string())),
                    };
                }
                if self.input.user_name.as_str().is_empty() {
                    return UserInitAction::Finish {
                        result: Err(UserError::InvalidInput("user_name cannot be empty".to_string())),
                    };
                }
                self.stage = UserInitStage::AwaitingBinding;
                UserInitAction::FindUserTenant { user_sub: self.input.user_sub.clone() }
            },
            UserInitEvent::BindingLookedUp { found } => match found {
                Err(e) => UserInitAction::Finish { result: Err(e) },
                Ok(Some(b)) => {
                    self.stage = UserInitStage::AwaitingLoginThenFinish {
                        tenant_id: b.tenant_id,
                        role: b.role,
                    };
                    UserInitAction::UpdateLastLogin { user_sub: self.input.user_sub.clone() }
                },
                Ok(None) => {
                    self.stage = UserInitStage::AwaitingUser;
                    UserInitAction::FindUser { user_sub: self.input.user_sub.clone() }
                },
            },
            UserInitEvent::LastLoginUpdated => match stage {
                UserInitStage::AwaitingLoginThenFinish { tenant_id, role } => {
                    UserInitAction::Finish {
                        result: Ok(InitTenantResult { tenant_id, role, created: false }),
                    }
                },
                _ => {
                    self.stage = UserInitStage::AwaitingTenant;
                    UserInitAction::CreateTenant { name: self.input.user_name.clone() }
                },
            },
            UserInitEvent::UserLookedUp { exists } => match exists {
                Err(e) => UserInitAction::Finish { result: Err(e) },
                Ok(false) => {
                    let id = generate_id();
                    proof {
                        let b = choose|b: Seq<u8>| b.len() == 16 && id@ == hex_of(b);
                        lemma_hex_len(b);
                    }
                    self.stage = UserInitStage::AwaitingUserCreation;
                    let now = crate::tenant_store::now_rfc3339();
                    let login = now.clone();
                    UserInitAction::CreateUser {
                        user: NewUser {
                            id,
                            user_sub: self.input.user_sub.clone(),
                            display_name: self.input.user_name.clone(),
                            email: self.input.email.clone(),
                            created_at: now,
                            last_login_at: Some(login),
                        },
                    }
                },
                Ok(true) => {
                    self.stage = UserInitStage::AwaitingLoginThenTenant;
                    UserInitAction::UpdateLastLogin { user_sub: self.input.user_sub.clone() }
                },
            },
            UserInitEvent::UserCreated { done } => match done {
                Err(e) => UserInitAction::Finish { result: Err(e) },
                Ok(()) => {
                    self.stage = UserInitStage::AwaitingTenant;
                    UserInitAction::CreateTenant { name: self.input.user_name.clone() }
                },
            },
            UserInitEvent::TenantCreated { tenant_id } => match tenant_id {
                Err(e) => UserInitAction::Finish { result: Err(e) },
                Ok(t) => {
                    self.stage = UserInitStage::AwaitingBinding2;
                    UserInitAction::CreateBinding {
                        user_sub: self.input.user_sub.clone(),
                        tenant_id: t,
                        role: "owner".to_string(),
                    }
                },
            },
            UserInitEvent::BindingCreated { binding } => match binding {
                Err(e) => UserInitAction::Finish { result: Err(e) },
                Ok(b) => UserInitAction::Finish {
                    result: Ok(InitTenantResult { tenant_id: b.tenant_id, role: b.role, created: true }),
                },
            },
        }
    }
}

proof fn lemma_hex_len(b: Seq<u8>)
    ensures
        hex_of(b).len() == 2 * b.len(),
    decreases b.len(),
{
    if b.len() > 0 {
        lemma_hex_len(b.drop_last());
    }
}


/// Initialising twice for one login. The first run ends with the binding
/// that the repository returns for the user's new tenant, created. Once the
/// repository answers the user's lookup with that binding, a second run for
/// the same subject finishes with the same tenant and role, not created,
/// after asking only for the lookup and the login update: no user, tenant or
/// binding is created again.
pub proof fn law_user_init_idempotent(
    h: UserInitFlow,
    created: UserTenantBinding,
    h2: UserInitFlow,
    a: UserInitAction,
    g0: UserInitFlow,
    g1: UserInitFlow,
    b1: UserInitAction,
    found: UserTenantBinding,
    g2: UserInitFlow,
    b2: UserInitAction,
    g3: UserInitFlow,
    b3: UserInitAction,
)
    requires
        user_accepts(h.stage, UserInitEvent::BindingCreated { binding: Ok(created) }),
        user_step(h, UserInitEvent::BindingCreated { binding: Ok(created) }, h2, a),
        found.tenant_id@ == created.tenant_id@,
        found.role@ == created.role@,
        g0.stage is Ready,
        g0.input.user_sub@ == h.input.user_sub@,
        user_step(g0, UserInitEvent::Start, g1, b1),
        user_accepts(g1.stage, UserInitEvent::BindingLookedUp { found: Ok(Some(found)) }),
        user_step(g1, UserInitEvent::BindingLookedUp { found: Ok(Some(found)) }, g2, b2),
        user_accepts(g2.stage, UserInitEvent::LastLoginUpdated),
        user_step(g2, UserInitEvent::LastLoginUpdated, g3, b3),
    ensures
        a matches UserInitAction::Finish { result: Ok(r1) } && r1.created && r1.tenant_id@
            == created.tenant_id@ && (b1 matches UserInitAction::FindUserTenant { user_sub }
            && user_sub@ == h.input.user_sub@) && (b2 matches UserInitAction::UpdateLastLogin {
            user_sub,
        } && user_sub@ == h.input.user_sub@) && (b3 matches UserInitAction::Finish {
            result: Ok(r2),
        } && r2.tenant_id@ == r1.tenant_id@ && r2.role@ == r1.role@ && !r2.created),
        g3.stage is Finished,
{
}

} // verus!
