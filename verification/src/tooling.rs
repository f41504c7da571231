//! Small decisions of the developer tooling: tools and container runtimes,
//! operation phase lines, command display, local workers and their state
//! files, migration names, process listings, deployment targets and system
//! facts.
use vstd::prelude::*;

use crate::contracts::{join, join_strings};
use crate::gate::string_views;
use crate::numtext::{parse_u32, parse_unsigned};
use crate::text::{
    find_char, lemma_index_of_range, split_once, chars_of, has_prefix, has_suffix, is_space, lines, push_chars, push_str, same_chars, slice,
    split_lines, split_words, starts_with, ends_with, contains, contains_chars, string_of, trim,
    trim_chars, words,
};

verus! {

// ---------------------------------------------------------------------------
// Tools, runtimes, dry-run modes
// ---------------------------------------------------------------------------

/// External tools the repository uses.
#[derive(Debug, Clone, Copy, PartialEq, Eq, Structural)]
pub enum Tool {
    Cargo,
    Just,
    Moon,
    Git,
    Podman,
    Kubectl,
    Sops,
    Age,
    Yq,
    Flux,
    K3s,
}

/// The program name of a tool.
pub open spec fn tool_binary(t: Tool) -> Seq<char> {
    match t {
        Tool::Cargo => "cargo"@,
        Tool::Just => "just"@,
        Tool::Moon => "moon"@,
        Tool::Git => "git"@,
        Tool::Podman => "podman"@,
        Tool::Kubectl => "kubectl"@,
        Tool::Sops => "sops"@,
        Tool::Age => "age"@,
        Tool::Yq => "yq"@,
        Tool::Flux => "flux"@,
        Tool::K3s => "k3s"@,
    }
}

impl Tool {
    /// The program name of the tool.
    pub fn binary(self) -> (r: &'static str)
        ensures
            r@ == tool_binary(self),
    {
        match self {
            Tool::Cargo => "cargo",
            Tool::Just => "just",
            Tool::Moon => "moon",
            Tool::Git => "git",
            Tool::Podman => "podman",
            Tool::Kubectl => "kubectl",
            Tool::Sops => "sops",
            Tool::Age => "age",
            Tool::Yq => "yq",
            Tool::Flux => "flux",
            Tool::K3s => "k3s",
        }
    }
}

/// The message for a missing tool.
pub fn missing_tool_message(tool: &str, hint: &str) -> (m: String)
    ensures
        m@ == "missing tool '"@ + tool@ + "'. install hint: "@ + hint@,
{
    let mut v = chars_of("missing tool '");
    push_str(&mut v, tool);
    push_str(&mut v, "'. install hint: ");
    push_str(&mut v, hint);
    string_of(&v)
}

/// Container runtimes for compose.
#[derive(Debug, Clone, Copy, PartialEq, Eq, Structural)]
pub enum ContainerRuntime {
    Docker,
    Podman,
}

impl ContainerRuntime {
    /// `docker` or `podman`.
    pub fn binary(self) -> (r: &'static str)
        ensures
            r@ == (match self {
                ContainerRuntime::Docker => "docker"@,
                ContainerRuntime::Podman => "podman"@,
            }),
    {
        match self {
            ContainerRuntime::Docker => "docker",
            ContainerRuntime::Podman => "podman",
        }
    }

    /// `docker compose` or `podman compose`.
    pub fn label(self) -> (r: &'static str)
        ensures
            r@ == (match self {
                ContainerRuntime::Docker => "docker compose"@,
                ContainerRuntime::Podman => "podman compose"@,
            }),
    {
        match self {
            ContainerRuntime::Docker => "docker compose",
            ContainerRuntime::Podman => "podman compose",
        }
    }
}

/// How a runtime was settled.
#[derive(Debug, Clone, Copy, PartialEq, Eq, Structural)]
pub enum RuntimeChoice {
    /// The requested runtime, whose tool is installed.
    Requested(ContainerRuntime),
    /// The requested runtime's tool is missing.
    RequestedMissing(ContainerRuntime),
    /// Docker, found installed.
    Docker,
    /// Podman, used because Docker is missing.
    PodmanFallback,
    /// Neither is installed.
    Missing,
}

/// Settles the container runtime: the requested one (which must be
/// installed), else Docker, else Podman, else none.
pub fn choose_runtime(requested: Option<ContainerRuntime>, installed: bool, has_docker: bool, has_podman: bool) -> (r: RuntimeChoice)
    ensures
        r == match requested {
            Some(rt) => if installed { RuntimeChoice::Requested(rt) } else { RuntimeChoice::RequestedMissing(rt) },
            None => if has_docker {
                RuntimeChoice::Docker
            } else if has_podman {
                RuntimeChoice::PodmanFallback
            } else {
                RuntimeChoice::Missing
            },
        },
{
    match requested {
        Some(rt) => if installed {
            RuntimeChoice::Requested(rt)
        } else {
            RuntimeChoice::RequestedMissing(rt)
        },
        None => if has_docker {
            RuntimeChoice::Docker
        } else if has_podman {
            RuntimeChoice::PodmanFallback
        } else {
            RuntimeChoice::Missing
        },
    }
}

/// The compose file of the local stack.
pub const LOCAL_COMPOSE_FILE: &'static str = "infra/docker/compose/core.yaml";

/// The compose project of the local stack.
pub const LOCAL_PROJECT_NAME: &'static str = "tauri-sveltekit-dev";

/// `compose`, a `--profile` pair per profile, then the local file and project.
pub open spec fn compose_args_spec(profiles: Seq<Seq<char>>) -> Seq<Seq<char>>
    decreases profiles.len(),
{
    if profiles.len() == 0 {
        seq!["compose"@]
    } else {
        compose_args_spec(profiles.drop_last()) + seq!["--profile"@, profiles.last()]
    }
}

/// The leading arguments of a local compose command.
pub fn local_compose_base_args(profiles: Vec<String>) -> (r: Vec<String>)
    ensures
        string_views(r@) == compose_args_spec(string_views(profiles@)) + seq![
            "-f"@,
            LOCAL_COMPOSE_FILE@,
            "-p"@,
            LOCAL_PROJECT_NAME@,
        ],
{
    let mut args: Vec<String> = Vec::new();
    args.push("compose".to_string());
    let ghost pv = string_views(profiles@);
    assert(string_views(args@) =~= compose_args_spec(pv.take(0)));
    let mut i: usize = 0;
    while i < profiles.len()
        invariant
            i <= profiles@.len(),
            pv == string_views(profiles@),
            string_views(args@) == compose_args_spec(pv.take(i as int)),
        decreases profiles@.len() - i,
    {
        let ghost before = string_views(args@);
        args.push("--profile".to_string());
        args.push(profiles[i].clone());
        proof {
            assert(pv.take(i + 1).drop_last() =~= pv.take(i as int));
            assert(string_views(args@) =~= before + seq!["--profile"@, profiles@[i as int]@]);
        }
        i = i + 1;
    }
    assert(pv.take(profiles@.len() as int) =~= pv);
    let ghost before = string_views(args@);
    args.push("-f".to_string());
    args.push(LOCAL_COMPOSE_FILE.to_string());
    args.push("-p".to_string());
    args.push(LOCAL_PROJECT_NAME.to_string());
    assert(string_views(args@) =~= before + seq!["-f"@, LOCAL_COMPOSE_FILE@, "-p"@, LOCAL_PROJECT_NAME@]);
    args
}

/// The compose file of the observability stack.
pub const OBSERVABILITY_COMPOSE_FILE: &'static str = "infra/docker/compose/observability.yaml";

/// The compose project name of the observability stack.
pub const OBSERVABILITY_PROJECT_NAME: &'static str = "tauri-sveltekit-observability";

/// The compose file of the local auth stack.
pub const AUTH_COMPOSE_FILE: &'static str = "infra/docker/compose/auth.yaml";

/// What is asked of a compose stack.
#[derive(Debug, Clone)]
pub enum ComposeAction {
    Up { detach: bool },
    Down { volumes: bool },
    Status { json: bool },
    Logs { follow: bool, service: Option<String> },
}

/// The trailing arguments of a compose command for an action: the
/// subcommand, then its flags in a fixed order, then the service to follow.
pub open spec fn compose_action_spec(a: ComposeAction) -> Seq<Seq<char>> {
    match a {
        ComposeAction::Up { detach } => seq!["up"@] + if detach { seq!["-d"@] } else { seq![] },
        ComposeAction::Down { volumes } => seq!["down"@] + if volumes {
            seq!["--volumes"@]
        } else {
            seq![]
        },
        ComposeAction::Status { json } => seq!["ps"@] + if json {
            seq!["--format"@, "json"@]
        } else {
            seq![]
        },
        ComposeAction::Logs { follow, service } => seq!["logs"@] + (if follow {
            seq!["-f"@]
        } else {
            seq![]
        }) + match service {
            Some(s) => seq![s@],
            None => seq![],
        },
    }
}

/// The trailing arguments of a compose command for an action.
pub fn compose_action_args(a: &ComposeAction) -> (r: Vec<String>)
    ensures
        string_views(r@) == compose_action_spec(*a),
{
    let mut out: Vec<String> = Vec::new();
    match a {
        ComposeAction::Up { detach } => {
            out.push("up".to_string());
            if *detach {
                out.push("-d".to_string());
            }
        },
        ComposeAction::Down { volumes } => {
            out.push("down".to_string());
            if *volumes {
                out.push("--volumes".to_string());
            }
        },
        ComposeAction::Status { json } => {
            out.push("ps".to_string());
            if *json {
                out.push("--format".to_string());
                out.push("json".to_string());
            }
        },
        ComposeAction::Logs { follow, service } => {
            out.push("logs".to_string());
            if *follow {
                out.push("-f".to_string());
            }
            match service {
                Some(s) => out.push(s.clone()),
                None => {},
            }
        },
    }
    assert(string_views(out@) =~= compose_action_spec(*a));
    out
}

/// The arguments of the strings `head`, then those of `tail`.
fn append_strings(head: &mut Vec<String>, tail: &Vec<String>)
    ensures
        string_views(final(head)@) == string_views(old(head)@) + string_views(tail@),
{
    let ghost start = string_views(head@);
    let mut i: usize = 0;
    while i < tail.len()
        invariant
            i <= tail@.len(),
            string_views(head@) =~= start + string_views(tail@).take(i as int),
        decreases tail@.len() - i,
    {
        let ghost before = string_views(head@);
        head.push(tail[i].clone());
        proof {
            assert(string_views(head@) =~= before.push(tail@[i as int]@));
            assert(string_views(tail@).take(i + 1) =~= string_views(tail@).take(i as int).push(
                tail@[i as int]@,
            ));
        }
        i = i + 1;
    }
    assert(string_views(tail@).take(tail@.len() as int) =~= string_views(tail@));
}

/// The full arguments of a local compose command: the base arguments for the
/// profiles, then the action.
pub fn local_compose_args(profiles: Vec<String>, a: &ComposeAction) -> (r: Vec<String>)
    ensures
        string_views(r@) == compose_args_spec(string_views(profiles@)) + seq![
            "-f"@,
            LOCAL_COMPOSE_FILE@,
            "-p"@,
            LOCAL_PROJECT_NAME@,
        ] + compose_action_spec(*a),
{
    let mut args = local_compose_base_args(profiles);
    let tail = compose_action_args(a);
    append_strings(&mut args, &tail);
    args
}

/// The arguments of an observability compose command.
pub fn observability_compose_args(a: &ComposeAction) -> (r: Vec<String>)
    ensures
        string_views(r@) == seq![
            "compose"@,
            "-f"@,
            OBSERVABILITY_COMPOSE_FILE@,
            "-p"@,
            OBSERVABILITY_PROJECT_NAME@,
        ] + compose_action_spec(*a),
{
    let mut args: Vec<String> = Vec::new();
    args.push("compose".to_string());
    args.push("-f".to_string());
    args.push(OBSERVABILITY_COMPOSE_FILE.to_string());
    args.push("-p".to_string());
    args.push(OBSERVABILITY_PROJECT_NAME.to_string());
    let ghost head = string_views(args@);
    assert(head =~= seq![
        "compose"@,
        "-f"@,
        OBSERVABILITY_COMPOSE_FILE@,
        "-p"@,
        OBSERVABILITY_PROJECT_NAME@,
    ]);
    let tail = compose_action_args(a);
    append_strings(&mut args, &tail);
    args
}

/// The requests of the local auth stack.
#[derive(Debug, Clone, Copy, PartialEq, Eq, Structural)]
pub enum AuthRequest {
    Up,
    Down,
    Status,
    Logs,
}

/// The compose action of an auth request: detached up, plain down and
/// status, followed logs.
pub open spec fn auth_action_spec(r: AuthRequest) -> ComposeAction {
    match r {
        AuthRequest::Up => ComposeAction::Up { detach: true },
        AuthRequest::Down => ComposeAction::Down { volumes: false },
        AuthRequest::Status => ComposeAction::Status { json: false },
        AuthRequest::Logs => ComposeAction::Logs { follow: true, service: None },
    }
}

/// The arguments of an auth compose command.
pub fn auth_compose_args(req: AuthRequest) -> (r: Vec<String>)
    ensures
        string_views(r@) == seq!["compose"@, "-f"@, AUTH_COMPOSE_FILE@] + compose_action_spec(
            auth_action_spec(req),
        ),
{
    let a = match req {
        AuthRequest::Up => ComposeAction::Up { detach: true },
        AuthRequest::Down => ComposeAction::Down { volumes: false },
        AuthRequest::Status => ComposeAction::Status { json: false },
        AuthRequest::Logs => ComposeAction::Logs { follow: true, service: None },
    };
    let mut args: Vec<String> = Vec::new();
    args.push("compose".to_string());
    args.push("-f".to_string());
    args.push(AUTH_COMPOSE_FILE.to_string());
    assert(string_views(args@) =~= seq!["compose"@, "-f"@, AUTH_COMPOSE_FILE@]);
    let tail = compose_action_args(&a);
    append_strings(&mut args, &tail);
    args
}

/// The issuer of the local reference identity provider.
pub const RAUTHY_ISSUER: &'static str = "http://localhost:8082/auth/v1/";

/// The token introspection address of the local identity provider.
pub const RAUTHY_INTROSPECTION_URL: &'static str = "http://localhost:8082/auth/v1/oidc/introspect";

/// The environment file of the local auth stack, for an authorization store
/// and model.
pub open spec fn auth_env_spec(store_id: Seq<char>, model_id: Seq<char>) -> Seq<char> {
    "APP_OIDC_ISSUER="@ + RAUTHY_ISSUER@ + "\nAPP_OIDC_AUDIENCE=web-bff-local\nAPP_OIDC_INTROSPECTION_URL="@
        + RAUTHY_INTROSPECTION_URL@
        + "\nAPP_AUTHZ_PROVIDER=openfga\nAPP_AUTHZ_ENDPOINT=http://localhost:8081\nAPP_AUTHZ_STORE_ID="@
        + store_id + "\nAPP_AUTHZ_MODEL_ID="@ + model_id + "\n"@
}

/// The environment file of the local auth stack.
pub fn auth_env_content(store_id: &str, model_id: &str) -> (r: String)
    ensures
        r@ == auth_env_spec(store_id@, model_id@),
{
    let mut out: Vec<char> = Vec::new();
    push_str(&mut out, "APP_OIDC_ISSUER=");
    push_str(&mut out, RAUTHY_ISSUER);
    push_str(&mut out, "\nAPP_OIDC_AUDIENCE=web-bff-local\nAPP_OIDC_INTROSPECTION_URL=");
    push_str(&mut out, RAUTHY_INTROSPECTION_URL);
    push_str(
        &mut out,
        "\nAPP_AUTHZ_PROVIDER=openfga\nAPP_AUTHZ_ENDPOINT=http://localhost:8081\nAPP_AUTHZ_STORE_ID=",
    );
    push_str(&mut out, store_id);
    push_str(&mut out, "\nAPP_AUTHZ_MODEL_ID=");
    push_str(&mut out, model_id);
    push_str(&mut out, "\n");
    string_of(&out)
}

/// A request header `name: value` split at its first colon, both sides
/// trimmed; `None` without a colon.
pub open spec fn header_parts_spec(h: Seq<char>) -> Option<(Seq<char>, Seq<char>)> {
    match split_once(h, ':') {
        Some((n, v)) => Some((trim(n), trim(v))),
        None => None,
    }
}

/// A request header split into name and value.
pub fn header_parts(h: &str) -> (r: Option<(String, String)>)
    ensures
        match r {
            Some((n, v)) => header_parts_spec(h@) == Some((n@, v@)),
            None => header_parts_spec(h@) is None,
        },
{
    let cs = chars_of(h);
    match find_char(&cs, ':') {
        Some(i) => {
            proof {
                lemma_index_of_range(cs@, ':');
            }
            assert(i < cs.len());
            let name = trim_chars(&slice(&cs, 0, i));
            let value = trim_chars(&slice(&cs, i + 1, cs.len()));
            Some((string_of(&name), string_of(&value)))
        },
        None => None,
    }
}

/// Server- or client-side dry runs of `kubectl apply`.
#[derive(Debug, Clone, Copy, PartialEq, Eq, Structural)]
pub enum KubectlDryRunMode {
    Client,
    Server,
}

impl KubectlDryRunMode {
    /// The `--dry-run` argument.
    pub fn arg(self) -> (r: &'static str)
        ensures
            r@ == (match self {
                KubectlDryRunMode::Client => "--dry-run=client"@,
                KubectlDryRunMode::Server => "--dry-run=server"@,
            }),
    {
        match self {
            KubectlDryRunMode::Client => "--dry-run=client",
            KubectlDryRunMode::Server => "--dry-run=server",
        }
    }
}

// ---------------------------------------------------------------------------
// Operations and commands
// ---------------------------------------------------------------------------

/// The phases of an operation.
#[derive(Debug, Clone, Copy, PartialEq, Eq, Structural)]
pub enum OperationPhase {
    Plan,
    Preflight,
    Execute,
    Verify,
}

/// Label of a phase.
pub open spec fn phase_label(p: OperationPhase) -> Seq<char> {
    match p {
        OperationPhase::Plan => "plan"@,
        OperationPhase::Preflight => "preflight"@,
        OperationPhase::Execute => "execute"@,
        OperationPhase::Verify => "verify"@,
    }
}

impl OperationPhase {
    /// `plan`, `preflight`, `execute` or `verify`.
    pub fn label(self) -> (r: &'static str)
        ensures
            r@ == phase_label(self),
    {
        match self {
            OperationPhase::Plan => "plan",
            OperationPhase::Preflight => "preflight",
            OperationPhase::Execute => "execute",
            OperationPhase::Verify => "verify",
        }
    }
}

/// A named operation that either only plans or applies changes.
#[derive(Debug, Clone)]
pub struct Operation {
    pub name: String,
    pub apply: bool,
}

impl Operation {
    /// An operation.
    pub fn new(name: &str, apply: bool) -> (r: Self)
        ensures
            r.name@ == name@,
            r.apply == apply,
    {
        Operation { name: name.to_string(), apply }
    }

    /// Whether the operation applies changes.
    pub fn is_apply(&self) -> (r: bool)
        ensures
            r == self.apply,
    {
        self.apply
    }

    /// The line announcing a phase: `[<name>:<phase>] <message>`.
    pub fn phase_line(&self, phase: OperationPhase, message: &str) -> (r: String)
        ensures
            r@ == "["@ + self.name@ + ":"@ + phase_label(phase) + "] "@ + message@,
    {
        let mut v = chars_of("[");
        push_str(&mut v, self.name.as_str());
        push_str(&mut v, ":");
        push_str(&mut v, phase.label());
        push_str(&mut v, "] ");
        push_str(&mut v, message);
        string_of(&v)
    }
}

/// A command as shown to the user: the program, then its arguments joined
/// by spaces.
pub open spec fn command_text(program: Seq<char>, args: Seq<Seq<char>>) -> Seq<char> {
    if args.len() == 0 {
        program
    } else {
        program + " "@ + join(args, " "@)
    }
}

/// How a command is shown.
pub fn display_command(program: &str, args: &Vec<String>) -> (r: String)
    ensures
        r@ == command_text(program@, string_views(args@)),
{
    if args.len() == 0 {
        program.to_string()
    } else {
        let mut v = chars_of(program);
        push_str(&mut v, " ");
        let joined = join_strings(args, " ");
        push_str(&mut v, joined.as_str());
        string_of(&v)
    }
}

/// The outcome a dry run reports instead of running the command.
pub fn dry_run_outcome(program: &str, args: &Vec<String>) -> (r: crate::git::CommandOutcome)
    ensures
        r.success,
        r.output@ == "DRY-RUN: "@ + command_text(program@, string_views(args@)),
        r.error@.len() == 0,
        r.exit_code == 0,
{
    let mut v = chars_of("DRY-RUN: ");
    let shown = display_command(program, args);
    push_str(&mut v, shown.as_str());
    crate::git::CommandOutcome { success: true, output: string_of(&v), error: String::new(), exit_code: 0 }
}

// ---------------------------------------------------------------------------
// Local workers
// ---------------------------------------------------------------------------

/// A worker package and its health port.
#[derive(Debug, Clone, Copy)]
pub struct WorkerSpec {
    pub package: &'static str,
    pub port: u16,
}

/// The workers that run locally, with their health ports.
pub open spec fn workers_spec() -> Seq<(Seq<char>, u16)> {
    seq![
        ("outbox-relay"@, 3030u16),
        ("indexer"@, 3031u16),
        ("projector"@, 3032u16),
        ("scheduler"@, 3033u16),
        ("sync-reconciler"@, 3034u16),
    ]
}

/// Workers as plain values.
pub open spec fn worker_views(v: Seq<WorkerSpec>) -> Seq<(Seq<char>, u16)> {
    v.map_values(|w: WorkerSpec| (w.package@, w.port))
}

/// The workers that run locally.
pub fn workers() -> (r: Vec<WorkerSpec>)
    ensures
        worker_views(r@) == workers_spec(),
{
    let r = vec![
        WorkerSpec { package: "outbox-relay", port: 3030 },
        WorkerSpec { package: "indexer", port: 3031 },
        WorkerSpec { package: "projector", port: 3032 },
        WorkerSpec { package: "scheduler", port: 3033 },
        WorkerSpec { package: "sync-reconciler", port: 3034 },
    ];
    assert(worker_views(r@) =~= workers_spec());
    r
}

/// The binary of a worker package.
pub open spec fn worker_binary_spec(package: Seq<char>) -> Seq<char> {
    if package == "outbox-relay"@ {
        "outbox-relay-worker"@
    } else if package == "indexer"@ {
        "indexer-worker"@
    } else if package == "projector"@ {
        "projector-worker"@
    } else if package == "scheduler"@ {
        "scheduler-worker"@
    } else if package == "sync-reconciler"@ {
        "sync-reconciler-worker"@
    } else {
        package
    }
}

impl WorkerSpec {
    /// The binary the worker package builds.
    pub fn binary(self) -> (r: &'static str)
        ensures
            r@ == worker_binary_spec(self.package@),
    {
        let p = chars_of(self.package);
        if same_chars(&p, &chars_of("outbox-relay")) {
            "outbox-relay-worker"
        } else if same_chars(&p, &chars_of("indexer")) {
            "indexer-worker"
        } else if same_chars(&p, &chars_of("projector")) {
            "projector-worker"
        } else if same_chars(&p, &chars_of("scheduler")) {
            "scheduler-worker"
        } else if same_chars(&p, &chars_of("sync-reconciler")) {
            "sync-reconciler-worker"
        } else {
            self.package
        }
    }

    /// The worker's pid file name: `<binary>.pid`.
    pub fn pid_file(self) -> (r: String)
        ensures
            r@ == worker_binary_spec(self.package@) + ".pid"@,
    {
        let mut v = chars_of(self.binary());
        push_str(&mut v, ".pid");
        string_of(&v)
    }

    /// The worker's log file name: `<binary>.log`.
    pub fn log_file(self) -> (r: String)
        ensures
            r@ == worker_binary_spec(self.package@) + ".log"@,
    {
        let mut v = chars_of(self.binary());
        push_str(&mut v, ".log");
        string_of(&v)
    }
}

/// The first worker whose package or binary is `name`.
pub open spec fn worker_named(ws: Seq<(Seq<char>, u16)>, name: Seq<char>) -> Option<(Seq<char>, u16)>
    decreases ws.len(),
{
    if ws.len() == 0 {
        None
    } else if ws[0].0 == name || worker_binary_spec(ws[0].0) == name {
        Some(ws[0])
    } else {
        worker_named(ws.drop_first(), name)
    }
}

/// The local worker named by its package or its binary.
pub fn worker_by_name(name: &str) -> (r: Option<WorkerSpec>)
    ensures
        match r {
            Some(w) => worker_named(workers_spec(), name@) == Some((w.package@, w.port)),
            None => worker_named(workers_spec(), name@) is None,
        },
{
    let ws = workers();
    let n = chars_of(name);
    let ghost wv = worker_views(ws@);
    let mut i: usize = 0;
    assert(wv.skip(0) =~= wv);
    while i < ws.len()
        invariant
            i <= ws@.len(),
            wv == worker_views(ws@),
            wv == workers_spec(),
            n@ == name@,
            worker_named(wv.skip(i as int), name@) == worker_named(wv, name@),
        decreases ws@.len() - i,
    {
        proof {
            assert(wv.skip(i as int).drop_first() =~= wv.skip(i + 1));
            assert(wv.skip(i as int)[0] == (ws@[i as int].package@, ws@[i as int].port));
        }
        let w = ws[i];
        if same_chars(&chars_of(w.package), &n) || same_chars(&chars_of(w.binary()), &n) {
            return Some(w);
        }
        i = i + 1;
    }
    None
}

/// The pid a pid file records: its trimmed text read as a `u32`.
pub fn parse_pid(content: &str) -> (r: Option<u32>)
    ensures
        match r {
            Some(p) => parse_unsigned(trim(content@), u32::MAX as nat) == Some(p as nat),
            None => parse_unsigned(trim(content@), u32::MAX as nat) is None,
        },
{
    parse_u32(&trim_chars(&chars_of(content)))
}

/// The pid of a `ps -o pid=,stat=` line whose state is a zombie (starts
/// with `Z`).
pub open spec fn zombie_pid(line: Seq<char>) -> Option<nat> {
    let w = words(line);
    if w.len() < 2 {
        None
    } else {
        match parse_unsigned(w[0], u32::MAX as nat) {
            Some(p) => if w[1].len() > 0 && w[1][0] == 'Z' {
                Some(p)
            } else {
                None
            },
            None => None,
        }
    }
}

/// The pid of a zombie process line.
pub fn parse_zombie_pid(line: &str) -> (r: Option<u32>)
    ensures
        match r {
            Some(p) => zombie_pid(line@) == Some(p as nat),
            None => zombie_pid(line@) is None,
        },
{
    let w = split_words(&chars_of(line));
    proof {
        assert(w@.len() == words(line@).len());
    }
    if w.len() < 2 {
        return None;
    }
    proof {
        assert(w@[0]@ == words(line@)[0]);
        assert(w@[1]@ == words(line@)[1]);
    }
    let pid = parse_u32(&w[0])?;
    if w[1].len() > 0 && w[1][0] == 'Z' {
        Some(pid)
    } else {
        None
    }
}

/// The netstat lines of TCP sockets on `port`: trimmed lines that start with
/// `TCP` and contain `:<port>`.
pub open spec fn port_lines_spec(ls: Seq<Seq<char>>, needle: Seq<char>) -> Seq<Seq<char>>
    decreases ls.len(),
{
    if ls.len() == 0 {
        Seq::empty()
    } else {
        let rest = port_lines_spec(ls.drop_last(), needle);
        let t = trim(ls.last());
        if has_prefix(t, "TCP"@) && contains(t, needle) {
            rest.push(t)
        } else {
            rest
        }
    }
}

/// The netstat lines about the port given as `needle` (`:<port>`).
pub fn port_lines(output: &str, needle: &str) -> (r: Vec<String>)
    ensures
        string_views(r@) == port_lines_spec(lines(output@), needle@),
{
    let ls = split_lines(&chars_of(output));
    let ghost lv = lines(output@);
    let nd = chars_of(needle);
    let tcp = chars_of("TCP");
    let mut out: Vec<String> = Vec::new();
    let mut i: usize = 0;
    while i < ls.len()
        invariant
            i <= ls@.len(),
            ls@.len() == lv.len(),
            lv == lines(output@),
            forall|k: int| 0 <= k < ls@.len() ==> #[trigger] ls@[k]@ == lv[k],
            nd@ == needle@,
            tcp@ == "TCP"@,
            string_views(out@) == port_lines_spec(lv.take(i as int), needle@),
        decreases ls@.len() - i,
    {
        proof {
            assert(lv.take(i + 1).drop_last() =~= lv.take(i as int));
            assert(lv.take(i + 1).last() == ls@[i as int]@);
        }
        let t = trim_chars(&ls[i]);
        if starts_with(&t, &tcp) && contains_chars(&t, &nd) {
            let ghost before = string_views(out@);
            out.push(string_of(&t));
            proof {
                assert(string_views(out@) =~= before.push(t@));
            }
        }
        i = i + 1;
    }
    assert(lv.take(ls@.len() as int) =~= lv);
    out
}

/// The pid of a netstat line: its last word read as a `u32`.
pub open spec fn line_pid(line: Seq<char>) -> Option<nat> {
    let w = words(line);
    if w.len() == 0 {
        None
    } else {
        parse_unsigned(w.last(), u32::MAX as nat)
    }
}

/// The pids of the netstat lines, sorted and each once.
pub fn port_pids(port_lines: &Vec<String>) -> (r: Vec<u32>)
    ensures
        forall|i: int, j: int| 0 <= i < j < r@.len() ==> r@[i] < r@[j],
        forall|p: u32| r@.contains(p) <==> exists|k: int| 0 <= k < port_lines@.len() && line_pid(#[trigger] port_lines@[k]@) == Some(p as nat),
{
    let mut out: Vec<u32> = Vec::new();
    let mut i: usize = 0;
    while i < port_lines.len()
        invariant
            i <= port_lines@.len(),
            forall|a: int, b: int| 0 <= a < b < out@.len() ==> out@[a] < out@[b],
            forall|p: u32| out@.contains(p) <==> exists|k: int| 0 <= k < i && line_pid(#[trigger] port_lines@[k]@) == Some(p as nat),
        decreases port_lines@.len() - i,
    {
        let w = split_words(&chars_of(port_lines[i].as_str()));
        let ghost wl = words(port_lines@[i as int]@);
        proof {
            assert(w@.len() == wl.len());
        }
        let pid = if w.len() > 0 {
            proof {
                assert(w@[w@.len() - 1]@ == wl.last());
            }
            parse_u32(&w[w.len() - 1])
        } else {
            None
        };
        let ghost old_out = out@;
        match pid {
            Some(p) => {
                let mut pos: usize = 0;
                while pos < out.len() && out[pos] < p
                    invariant
                        pos <= out@.len(),
                        forall|a: int| 0 <= a < pos ==> out@[a] < p,
                    decreases out@.len() - pos,
                {
                    pos = pos + 1;
                }
                if pos < out.len() && out[pos] == p {
                } else {
                    out.insert(pos, p);
                    proof {
                        assert forall|a: int, b: int| 0 <= a < b < out@.len() implies out@[a] < out@[b] by {
                            if b < pos {
                                assert(out@[a] == old_out[a] && out@[b] == old_out[b]);
                            } else if b == pos {
                                assert(out@[a] == old_out[a]);
                            } else if a == pos {
                                assert(out@[b] == old_out[b - 1]);
                                if b - 1 > pos {
                                    assert(old_out[pos as int] < old_out[b - 1]);
                                }
                            } else if a < pos {
                                assert(out@[a] == old_out[a] && out@[b] == old_out[b - 1]);
                            } else {
                                assert(out@[a] == old_out[a - 1] && out@[b] == old_out[b - 1]);
                            }
                        }
                    }
                }
                proof {
                    assert forall|q: u32| out@.contains(q) <==> exists|k: int| 0 <= k < i + 1 && line_pid(#[trigger] port_lines@[k]@) == Some(q as nat) by {
                        if out@.contains(q) {
                            let m = choose|m: int| 0 <= m < out@.len() && out@[m] == q;
                            if q != p {
                                if out@.len() == old_out.len() {
                                    assert(old_out.contains(q));
                                } else {
                                    if m < pos {
                                        assert(old_out[m] == q);
                                    } else {
                                        assert(old_out[m - 1] == q);
                                    }
                                    assert(old_out.contains(q));
                                }
                            } else {
                                assert(line_pid(port_lines@[i as int]@) == Some(q as nat));
                            }
                        }
                        if exists|k: int| 0 <= k < i + 1 && line_pid(#[trigger] port_lines@[k]@) == Some(q as nat) {
                            let k = choose|k: int| 0 <= k < i + 1 && line_pid(#[trigger] port_lines@[k]@) == Some(q as nat);
                            if k < i {
                                assert(old_out.contains(q));
                                let m = choose|m: int| 0 <= m < old_out.len() && old_out[m] == q;
                                if out@.len() == old_out.len() {
                                    assert(out@[m] == q);
                                } else if m < pos {
                                    assert(out@[m] == q);
                                } else {
                                    assert(out@[m + 1] == q);
                                }
                            } else {
                                assert(q == p);
                                if out@.len() == old_out.len() {
                                    assert(out@[pos as int] == q);
                                } else {
                                    assert(out@[pos as int] == q);
                                }
                            }
                        }
                    }
                }
            },
            None => {
                proof {
                    assert forall|q: u32| out@.contains(q) <==> exists|k: int| 0 <= k < i + 1 && line_pid(#[trigger] port_lines@[k]@) == Some(q as nat) by {
                        if exists|k: int| 0 <= k < i + 1 && line_pid(#[trigger] port_lines@[k]@) == Some(q as nat) {
                            let k = choose|k: int| 0 <= k < i + 1 && line_pid(#[trigger] port_lines@[k]@) == Some(q as nat);
                            assert(k != i);
                        }
                    }
                }
            },
        }
        i = i + 1;
    }
    out
}

// ---------------------------------------------------------------------------
// Migrations and deployment
// ---------------------------------------------------------------------------

/// A character of a migration name: lower-case letters and digits kept,
/// upper-case letters lowered, everything else `_`.
pub open spec fn migration_char(c: char) -> char {
    if ('a' <= c && c <= 'z') || ('0' <= c && c <= '9') {
        c
    } else if 'A' <= c && c <= 'Z' {
        ((c as u32) + 32) as char
    } else {
        '_'
    }
}

/// A migration name made safe for a file name.
pub fn sanitize_migration_name(name: &str) -> (r: String)
    ensures
        r@ == name@.map_values(|c: char| migration_char(c)),
{
    let c = chars_of(name);
    let mut out: Vec<char> = Vec::new();
    let mut i: usize = 0;
    while i < c.len()
        invariant
            i <= c@.len(),
            c@ == name@,
            out@ == c@.take(i as int).map_values(|x: char| migration_char(x)),
        decreases c@.len() - i,
    {
        let ch = c[i];
        let m = if ('a' <= ch && ch <= 'z') || ('0' <= ch && ch <= '9') {
            ch
        } else if 'A' <= ch && ch <= 'Z' {
            let b = ch as u8;
            proof {
                vstd::utf8::char_u32_cast(ch, ch as u32);
            }
            (b + 32) as char
        } else {
            '_'
        };
        out.push(m);
        proof {
            assert(m == migration_char(ch));
            assert(out@ =~= c@.take(i + 1).map_values(|x: char| migration_char(x)));
        }
        i = i + 1;
    }
    assert(c@.take(c@.len() as int) =~= c@);
    string_of(&out)
}

/// The migration file name for a timestamp and a name:
/// `<timestamp>_<sanitised name>.sql`; `None` where the trimmed timestamp is
/// empty.
pub fn migration_file_name(timestamp: &str, name: &str) -> (r: Option<String>)
    ensures
        trim(timestamp@).len() == 0 ==> r is None,
        trim(timestamp@).len() > 0 ==> (r matches Some(f) && f@ == trim(timestamp@) + "_"@ + name@.map_values(
            |c: char| migration_char(c),
        ) + ".sql"@),
{
    let t = trim_chars(&chars_of(timestamp));
    if t.len() == 0 {
        return None;
    }
    let mut v = slice(&t, 0, t.len());
    push_str(&mut v, "_");
    let s = sanitize_migration_name(name);
    push_str(&mut v, s.as_str());
    push_str(&mut v, ".sql");
    Some(string_of(&v))
}

/// The database a migration environment targets.
pub open spec fn database_target_spec(env: Seq<char>) -> Option<Seq<char>> {
    if env == "local"@ {
        Some("libsql://localhost:8080"@)
    } else if env == "dev"@ {
        Some("libsql://turso.app.svc.cluster.local:8080"@)
    } else if env == "staging"@ || env == "prod"@ {
        Some("managed secret-backed database URL (not printed)"@)
    } else {
        None
    }
}

/// The database a migration environment targets; `None` for an unknown
/// environment.
pub fn database_target(env: &str) -> (r: Option<&'static str>)
    ensures
        match r {
            Some(t) => database_target_spec(env@) == Some(t@),
            None => database_target_spec(env@) is None,
        },
{
    let e = chars_of(env);
    if same_chars(&e, &chars_of("local")) {
        Some("libsql://localhost:8080")
    } else if same_chars(&e, &chars_of("dev")) {
        Some("libsql://turso.app.svc.cluster.local:8080")
    } else if same_chars(&e, &chars_of("staging")) || same_chars(&e, &chars_of("prod")) {
        Some("managed secret-backed database URL (not printed)")
    } else {
        None
    }
}

/// The systemd unit of a service: the name, with `.service` added unless it
/// ends with it.
pub fn service_unit(name: &str) -> (r: String)
    ensures
        has_suffix(name@, ".service"@) ==> r@ == name@,
        !has_suffix(name@, ".service"@) ==> r@ == name@ + ".service"@,
{
    let n = chars_of(name);
    if ends_with(&n, &chars_of(".service")) {
        name.to_string()
    } else {
        let mut v = n;
        push_str(&mut v, ".service");
        string_of(&v)
    }
}

/// The arguments that show a unit's journal: `sudo journalctl -u unit`,
/// followed when asked, without a pager.
pub open spec fn journal_args_spec(unit: Seq<char>, follow: bool) -> Seq<Seq<char>> {
    seq!["journalctl"@, "-u"@, unit] + (if follow {
        seq!["-f"@]
    } else {
        seq![]
    }) + seq!["--no-pager"@]
}

/// The arguments given to `sudo` to show a unit's journal.
pub fn journal_args(unit: &str, follow: bool) -> (r: Vec<String>)
    ensures
        string_views(r@) == journal_args_spec(unit@, follow),
{
    let mut out: Vec<String> = Vec::new();
    out.push("journalctl".to_string());
    out.push("-u".to_string());
    out.push(unit.to_string());
    if follow {
        out.push("-f".to_string());
    }
    out.push("--no-pager".to_string());
    assert(string_views(out@) =~= journal_args_spec(unit@, follow));
    out
}

/// The arguments that ask a tool for its version: `age -version`,
/// `kubectl version --client`, and `--version` for any other.
pub open spec fn version_args_spec(tool: Seq<char>) -> Seq<Seq<char>> {
    if tool == "age"@ {
        seq!["-version"@]
    } else if tool == "kubectl"@ {
        seq!["version"@, "--client"@]
    } else {
        seq!["--version"@]
    }
}

/// The arguments that ask a tool for its version.
pub fn version_args(tool: &str) -> (r: Vec<String>)
    ensures
        string_views(r@) == version_args_spec(tool@),
{
    let t = chars_of(tool);
    let mut out: Vec<String> = Vec::new();
    if same_chars(&t, &chars_of("age")) {
        out.push("-version".to_string());
    } else if same_chars(&t, &chars_of("kubectl")) {
        out.push("version".to_string());
        out.push("--client".to_string());
    } else {
        out.push("--version".to_string());
    }
    assert(string_views(out@) =~= version_args_spec(tool@));
    out
}

/// The package manager of an operating system id.
pub open spec fn package_manager_spec(os: Seq<char>) -> Seq<char> {
    if os == "ubuntu"@ || os == "debian"@ {
        "apt-get"@
    } else if os == "rocky"@ || os == "centos"@ || os == "rhel"@ || os == "fedora"@ {
        "dnf"@
    } else {
        "unsupported"@
    }
}

/// The package manager of an operating system id.
pub fn package_manager(os: &str) -> (r: &'static str)
    ensures
        r@ == package_manager_spec(os@),
{
    let o = chars_of(os);
    if same_chars(&o, &chars_of("ubuntu")) || same_chars(&o, &chars_of("debian")) {
        "apt-get"
    } else if same_chars(&o, &chars_of("rocky")) || same_chars(&o, &chars_of("centos"))
        || same_chars(&o, &chars_of("rhel")) || same_chars(&o, &chars_of("fedora")) {
        "dnf"
    } else {
        "unsupported"
    }
}

/// `s` without leading and trailing `c`s (`str::trim_matches` on a char).
pub open spec fn trim_char(s: Seq<char>, c: char) -> Seq<char> {
    crate::existence::trim_end_char(crate::template::trim_start_char(s, c), c)
}

/// The operating system id of an `os-release` text: the value of its first
/// `ID=` line, without surrounding quotes.
pub open spec fn os_release_id_spec(ls: Seq<Seq<char>>) -> Option<Seq<char>>
    decreases ls.len(),
{
    if ls.len() == 0 {
        None
    } else if has_prefix(ls[0], "ID="@) {
        Some(trim_char(ls[0].skip(3), '"'))
    } else {
        os_release_id_spec(ls.drop_first())
    }
}

/// `s` without leading and trailing `"`.
fn trim_quotes(s: &[char]) -> (r: Vec<char>)
    ensures
        r@ == trim_char(s@, '"'),
{
    let mut a: usize = 0;
    assert(s@.skip(0) =~= s@);
    while a < s.len() && s[a] == '"'
        invariant
            a <= s@.len(),
            crate::template::trim_start_char(s@.skip(a as int), '"') == crate::template::trim_start_char(s@, '"'),
        decreases s@.len() - a,
    {
        proof {
            assert(s@.skip(a as int).drop_first() =~= s@.skip(a + 1));
        }
        a = a + 1;
    }
    let t = slice(s, a, s.len());
    assert(t@ =~= s@.skip(a as int));
    let mut n: usize = t.len();
    assert(t@.take(n as int) =~= t@);
    while n > 0 && t[n - 1] == '"'
        invariant
            n <= t@.len(),
            crate::existence::trim_end_char(t@.take(n as int), '"') == crate::existence::trim_end_char(t@, '"'),
        decreases n,
    {
        proof {
            assert(t@.take(n as int).drop_last() =~= t@.take(n - 1));
        }
        n = n - 1;
    }
    let r = slice(&t, 0, n);
    assert(r@ =~= t@.take(n as int));
    r
}

/// The operating system id of an `os-release` text, if it has an `ID=` line.
pub fn os_release_id(content: &str) -> (r: Option<String>)
    ensures
        match r {
            Some(id) => os_release_id_spec(lines(content@)) == Some(id@),
            None => os_release_id_spec(lines(content@)) is None,
        },
{
    let ls = split_lines(&chars_of(content));
    let ghost lv = lines(content@);
    let prefix = chars_of("ID=");
    proof {
        reveal_strlit("ID=");
    }
    let mut i: usize = 0;
    assert(lv.skip(0) =~= lv);
    while i < ls.len()
        invariant
            i <= ls@.len(),
            ls@.len() == lv.len(),
            lv == lines(content@),
            forall|k: int| 0 <= k < ls@.len() ==> #[trigger] ls@[k]@ == lv[k],
            prefix@ == "ID="@,
            "ID="@.len() == 3,
            os_release_id_spec(lv.skip(i as int)) == os_release_id_spec(lv),
        decreases ls@.len() - i,
    {
        proof {
            assert(lv.skip(i as int).drop_first() =~= lv.skip(i + 1));
            assert(lv.skip(i as int)[0] == ls@[i as int]@);
        }
        if starts_with(&ls[i], &prefix) {
            let rest = slice(&ls[i], 3, ls[i].len());
            assert(rest@ =~= ls@[i as int]@.skip(3));
            return Some(string_of(&trim_quotes(&rest)));
        }
        i = i + 1;
    }
    assert(lv.skip(i as int).len() == 0);
    None
}

/// Where the encrypted secret of a deployable lives, relative to the root.
pub fn secret_relative_path(env: &str, deployable: &str) -> (r: String)
    ensures
        r@ == "infra/security/sops/"@ + env@ + "/"@ + deployable@ + ".enc.yaml"@,
{
    let mut v = chars_of("infra/security/sops/");
    push_str(&mut v, env);
    push_str(&mut v, "/");
    push_str(&mut v, deployable);
    push_str(&mut v, ".enc.yaml");
    string_of(&v)
}

/// Where the plain template of a deployable's secret lives, relative to the
/// root.
pub fn template_secret_relative_path(env: &str, deployable: &str) -> (r: String)
    ensures
        r@ == "infra/security/sops/templates/"@ + env@ + "/"@ + deployable@ + ".yaml"@,
{
    let mut v = chars_of("infra/security/sops/templates/");
    push_str(&mut v, env);
    push_str(&mut v, "/");
    push_str(&mut v, deployable);
    push_str(&mut v, ".yaml");
    string_of(&v)
}

/// The runner of the skills command line.
pub const SKILLS_RUNNER: &'static str = "bunx";

/// What is asked of the skills command line.
#[derive(Debug, Clone)]
pub enum SkillsRequest {
    List,
    Find { query: Option<String> },
    Check,
    Add { source: String },
    AddSpecific { source: String, skill: String },
    Update,
    Remove { skill: String },
    Init { name: String },
    Status,
}

/// The arguments given to the runner for a request: the `skills` program,
/// then the subcommand; a search query is trimmed and left out when blank,
/// and the status request lists.
pub open spec fn skills_args_spec(r: SkillsRequest) -> Seq<Seq<char>> {
    seq!["skills"@] + match r {
        SkillsRequest::List => seq!["list"@],
        SkillsRequest::Find { query } => match query {
            Some(q) => if trim(q@).len() == 0 {
                seq!["find"@]
            } else {
                seq!["find"@, trim(q@)]
            },
            None => seq!["find"@],
        },
        SkillsRequest::Check => seq!["check"@],
        SkillsRequest::Add { source } => seq!["add"@, source@],
        SkillsRequest::AddSpecific { source, skill } => seq!["add"@, source@, "-s"@, skill@],
        SkillsRequest::Update => seq!["update"@],
        SkillsRequest::Remove { skill } => seq!["remove"@, skill@],
        SkillsRequest::Init { name } => seq!["init"@, name@],
        SkillsRequest::Status => seq!["list"@],
    }
}

/// The arguments given to the skills runner for a request.
pub fn skills_cli_args(r: &SkillsRequest) -> (out: Vec<String>)
    ensures
        string_views(out@) == skills_args_spec(*r),
{
    let mut out: Vec<String> = Vec::new();
    out.push("skills".to_string());
    match r {
        SkillsRequest::List => out.push("list".to_string()),
        SkillsRequest::Find { query } => {
            out.push("find".to_string());
            match query {
                Some(q) => {
                    let t = trim_chars(&chars_of(q.as_str()));
                    if t.len() > 0 {
                        out.push(string_of(&t));
                    }
                },
                None => {},
            }
        },
        SkillsRequest::Check => out.push("check".to_string()),
        SkillsRequest::Add { source } => {
            out.push("add".to_string());
            out.push(source.clone());
        },
        SkillsRequest::AddSpecific { source, skill } => {
            out.push("add".to_string());
            out.push(source.clone());
            out.push("-s".to_string());
            out.push(skill.clone());
        },
        SkillsRequest::Update => out.push("update".to_string()),
        SkillsRequest::Remove { skill } => {
            out.push("remove".to_string());
            out.push(skill.clone());
        },
        SkillsRequest::Init { name } => {
            out.push("init".to_string());
            out.push(name.clone());
        },
        SkillsRequest::Status => out.push("list".to_string()),
    }
    assert(string_views(out@) =~= skills_args_spec(*r));
    out
}

// ---------------------------------------------------------------------------
// App shells
// ---------------------------------------------------------------------------

/// The first line of a tool's version output, or `installed` when it has
/// none.
pub fn first_line(output: &str) -> (r: String)
    ensures
        lines(output@).len() > 0 ==> r@ == lines(output@)[0],
        lines(output@).len() == 0 ==> r@ == "installed"@,
{
    let ls = split_lines(&chars_of(output));
    if ls.len() > 0 {
        string_of(&ls[0])
    } else {
        "installed".to_string()
    }
}

/// The program that runs bun: `bun.cmd` on Windows, `bun` elsewhere.
pub fn bun_program(windows: bool) -> (r: &'static str)
    ensures
        windows ==> r@ == "bun.cmd"@,
        !windows ==> r@ == "bun"@,
{
    if windows {
        "bun.cmd"
    } else {
        "bun"
    }
}

/// The result line of a test lane: `[PASS]` for exit code 0, `[FAIL]`
/// otherwise, then the lane and its exit code.
pub fn lane_line(name: &str, code: i32) -> (r: String)
    ensures
        r@ == "["@ + (if code == 0 { "PASS"@ } else { "FAIL"@ }) + "] "@ + name@ + " (exit "@
            + crate::numtext::int_text(code as int) + ")"@,
{
    let mut v = chars_of("[");
    push_str(&mut v, if code == 0 { "PASS" } else { "FAIL" });
    push_str(&mut v, "] ");
    push_str(&mut v, name);
    push_str(&mut v, " (exit ");
    crate::numtext::push_int(&mut v, code as i64);
    push_str(&mut v, ")");
    string_of(&v)
}

// ---------------------------------------------------------------------------
// Health responses
// ---------------------------------------------------------------------------

/// What `serde_json::to_string_pretty` prints for the JSON value that
/// `serde_json::from_str` reads from `text`; `None` where `text` is not JSON
/// or printing fails.
pub uninterp spec fn pretty_json_result(text: Seq<char>) -> Option<Seq<char>>;

/// Reads `text` with `serde_json::from_str` and prints it again with
/// `serde_json::to_string_pretty`. The claim is the named result only.
#[verifier::external_body]
fn pretty_json(text: &str) -> (r: Option<String>)
    ensures
        match r {
            Some(p) => pretty_json_result(text@) == Some(p@),
            None => pretty_json_result(text@) is None,
        },
{
    let value: serde_json::Value = serde_json::from_str(text).ok()?;
    serde_json::to_string_pretty(&value).ok()
}

/// A health response as printed: `[EMPTY RESPONSE]` when blank, JSON pretty
/// printed, anything else trimmed.
pub fn format_health_body(body: &str) -> (r: String)
    ensures
        trim(body@).len() == 0 ==> r@ == "[EMPTY RESPONSE]"@,
        trim(body@).len() > 0 ==> r@ == match pretty_json_result(trim(body@)) {
            Some(p) => p,
            None => trim(body@),
        },
{
    let tc = trim_chars(&chars_of(body));
    if tc.len() == 0 {
        return "[EMPTY RESPONSE]".to_string();
    }
    let t = string_of(&tc);
    match pretty_json(t.as_str()) {
        Some(p) => p,
        None => t,
    }
}


// ---------------------------------------------------------------------------
// Rendered manifests
// ---------------------------------------------------------------------------

/// How many of the lines start with `kind:`.
pub open spec fn kind_line_count(ls: Seq<Seq<char>>) -> nat
    decreases ls.len(),
{
    if ls.len() == 0 {
        0
    } else {
        kind_line_count(ls.drop_last()) + if has_prefix(ls.last(), "kind:"@) { 1nat } else { 0nat }
    }
}

/// How many resources a rendered manifest declares: its lines that start
/// with `kind:`.
pub fn resource_kind_lines(manifest: &str) -> (n: usize)
    ensures
        n == kind_line_count(lines(manifest@)),
{
    let ls = split_lines(&chars_of(manifest));
    let ghost lv = lines(manifest@);
    let kind = chars_of("kind:");
    let mut n: usize = 0;
    let mut i: usize = 0;
    while i < ls.len()
        invariant
            i <= ls@.len(),
            lv == lines(manifest@),
            ls@.len() == lv.len(),
            forall|k: int| 0 <= k < ls@.len() ==> #[trigger] ls@[k]@ == lv[k],
            kind@ == "kind:"@,
            n == kind_line_count(lv.take(i as int)),
            n <= i,
        decreases ls@.len() - i,
    {
        proof {
            assert(lv.take(i + 1).drop_last() =~= lv.take(i as int));
            assert(lv.take(i + 1).last() == ls@[i as int]@);
        }
        if starts_with(&ls[i], &kind) {
            n = n + 1;
        }
        i = i + 1;
    }
    assert(lv.take(ls@.len() as int) =~= lv);
    n
}


// ---------------------------------------------------------------------------
// Log files and unit files
// ---------------------------------------------------------------------------

/// The size above which a test log is cut down, in bytes.
pub const LOG_SIZE_LIMIT: u64 = 10485760;

/// How many trailing lines a cut-down test log keeps.
pub const LOG_KEEP_LINES: usize = 50000;

/// Whether a log of `size` bytes is cut down: only when above the limit.
pub fn log_needs_truncation(size: u64) -> (r: bool)
    ensures
        r == (size > LOG_SIZE_LIMIT),
{
    size > LOG_SIZE_LIMIT
}

/// The last `keep` lines of `ls` (all of them when there are fewer).
pub open spec fn last_lines(ls: Seq<Seq<char>>, keep: nat) -> Seq<Seq<char>> {
    if ls.len() > keep {
        ls.skip(ls.len() - keep)
    } else {
        ls
    }
}

/// The last `keep` lines of `content`, joined with `\n`: what a cut-down
/// log holds afterwards.
pub fn tail_lines(content: &str, keep: usize) -> (r: String)
    ensures
        r@ == join(last_lines(lines(content@), keep as nat), "\n"@),
{
    let ls = split_lines(&chars_of(content));
    let ghost lv = lines(content@);
    let start: usize = if ls.len() > keep { ls.len() - keep } else { 0 };
    let ghost want = last_lines(lv, keep as nat);
    assert(want =~= lv.subrange(start as int, lv.len() as int));
    let mut kept: Vec<String> = Vec::new();
    let mut i: usize = start;
    while i < ls.len()
        invariant
            start <= i <= ls@.len(),
            ls@.len() == lv.len(),
            forall|k: int| 0 <= k < ls@.len() ==> #[trigger] ls@[k]@ == lv[k],
            string_views(kept@) =~= lv.subrange(start as int, i as int),
        decreases ls@.len() - i,
    {
        let line = string_of(&ls[i]);
        assert(line@ == lv[i as int]) by {
            assert(ls@[i as int]@ == lv[i as int]);
        }
        let ghost before = kept@;
        kept.push(line);
        proof {
            assert(kept@ == before.push(line));
            assert(string_views(kept@) =~= string_views(before).push(line@));
            assert(string_views(kept@) =~= lv.subrange(start as int, i + 1));
        }
        i = i + 1;
    }
    join_strings(&kept, "\n")
}

/// The systemd unit file of the API service, for the given account, working
/// directory, environment file and binary.
pub open spec fn api_unit_spec(
    user: Seq<char>,
    group: Seq<char>,
    dir: Seq<char>,
    env_file: Seq<char>,
    bin: Seq<char>,
) -> Seq<char> {
    "[Unit]\nDescription=Axum API Service\nAfter=network.target\n\n[Service]\nType=simple\nUser="@
        + user + "\nGroup="@ + group + "\nWorkingDirectory="@ + dir + "\nEnvironmentFile="@
        + env_file + "\nExecStart="@ + bin
        + "\nRestart=on-failure\nRestartSec=5\nNoNewPrivileges=true\nProtectSystem=strict\nReadWritePaths=/var/lib/axum-api\n\n[Install]\nWantedBy=multi-user.target\n"@
}

/// The systemd unit file of the API service.
pub fn api_service_unit(user: &str, group: &str, dir: &str, env_file: &str, bin: &str) -> (r:
    String)
    ensures
        r@ == api_unit_spec(user@, group@, dir@, env_file@, bin@),
{
    let mut out: Vec<char> = Vec::new();
    push_str(
        &mut out,
        "[Unit]\nDescription=Axum API Service\nAfter=network.target\n\n[Service]\nType=simple\nUser=",
    );
    push_str(&mut out, user);
    push_str(&mut out, "\nGroup=");
    push_str(&mut out, group);
    push_str(&mut out, "\nWorkingDirectory=");
    push_str(&mut out, dir);
    push_str(&mut out, "\nEnvironmentFile=");
    push_str(&mut out, env_file);
    push_str(&mut out, "\nExecStart=");
    push_str(&mut out, bin);
    push_str(
        &mut out,
        "\nRestart=on-failure\nRestartSec=5\nNoNewPrivileges=true\nProtectSystem=strict\nReadWritePaths=/var/lib/axum-api\n\n[Install]\nWantedBy=multi-user.target\n",
    );
    string_of(&out)
}

} // verus!
