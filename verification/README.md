# axum_harness

Verified core of the axum-harness repository tooling and its reference
services, written in Verus.

- `src/` is the library. Every function there is verified: the repository
  validations (contracts, imports, state ownership, workflows, existence,
  resilience, delivery evidence), task routing and handoff checks, the
  quality-gate state machine, report rendering and exit status, template
  cleanup plans, secret export checks, the tenant and user initialisation
  workflows, the SQL/SurrealQL statements of the repository adapters, the
  counter HTTP client's requests and replies, the domain events, the reading
  of the code map, the manifests and `cargo metadata` (parsed into the plain
  `doc::DocValue` model by trusted calls into serde_yaml, toml and
  serde_json), the migration run, and the arguments and files of
  the supporting tools (compose stacks, systemd units and journals, log
  truncation, skills, NATS releases, k6, trivy, syft and cosign). Calls into `regex`, `chrono`,
  `uuid`, `rand`, `serde_yaml` and `serde_json` sit behind small trusted
  wrappers whose contracts name what those crates return.
- `src/*::law_*` proof functions state properties that span calls: strict
  mode only raises severities, a strict gate stops at its first failure, a
  warn gate runs every step, handoff checks partition the paths, every
  dispatch ends with `(verify)`, `dir/**` covers `dir/*`, tag order is total,
  the report status laws, initialising a tenant twice returns the first
  result without creating anything, a template plan never removes what it
  keeps, and migrating twice is migrating once.
- `tests/` runs the library on concrete inputs.
- `app/` is the `repo-tools` command line: it reads the workspace, runs
  processes, and prints what the library decides.
