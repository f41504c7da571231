use axum_harness::contracts::{contract_package_name, metadata_dependencies, metadata_manifest_path};
use axum_harness::existence::codemap_existence_entries;
use axum_harness::imports::{codemap_import_rules, manifest_dependency_paths};
use axum_harness::secrets::secret_object;

const CODEMAP: &str = r#"
modules:
  services:
    counter:
      path: services/counter-service
      status: implemented
      notes: reference chain
    later:
      path: services/later-service
      status: planned
  libraries:
    kernel:
      path: packages/kernel
reference_modules:
  servers:
    bff:
      path: servers/bff/web-bff
    dup:
      path: services/counter-service
      status: replaced
rules:
  required_files:
    service: [Cargo.toml, src/lib.rs]
    server: [Cargo.toml]
  imports:
    - name: services-isolated
      from: services/**
      disallow: [services/**]
      except_same_module: true
    - just-a-string
    - from: [packages/**, servers/**]
      allow: packages/**
"#;

#[test]
fn codemap_rules_are_read_in_order() {
    let rules = codemap_import_rules(CODEMAP).unwrap();
    assert_eq!(rules.len(), 2);
    assert_eq!(rules[0].name.as_deref(), Some("services-isolated"));
    assert_eq!(rules[0].from, vec!["services/**"]);
    assert_eq!(rules[0].disallow, vec!["services/**"]);
    assert!(rules[0].except_same_module);
    assert_eq!(rules[1].name, None);
    assert_eq!(rules[1].from, vec!["packages/**", "servers/**"]);
    assert_eq!(rules[1].allow, vec!["packages/**"]);
    assert!(rules[1].except.is_empty());
    assert!(!rules[1].except_same_module);
    assert!(codemap_import_rules("a: [unclosed").is_none());
    assert!(codemap_import_rules("plain text").unwrap().is_empty());
}

#[test]
fn codemap_modules_sorted_last_declaration_wins() {
    let modules = codemap_existence_entries(CODEMAP).unwrap();
    let paths: Vec<&str> = modules.iter().map(|m| m.path.as_str()).collect();
    assert_eq!(paths, vec!["servers/bff/web-bff", "services/counter-service", "services/later-service"]);
    assert_eq!(modules[0].kind, "server");
    assert_eq!(modules[0].required, vec!["Cargo.toml"]);
    assert_eq!(modules[1].kind, "server");
    assert_eq!(modules[1].status, "replaced");
    assert_eq!(modules[1].notes, "");
    assert_eq!(modules[1].required, vec!["Cargo.toml"]);
    assert_eq!(modules[2].kind, "service");
    assert_eq!(modules[2].required, vec!["Cargo.toml", "src/lib.rs"]);
    assert_eq!(modules[2].status, "planned");
    assert!(codemap_existence_entries("{").is_none());
}

#[test]
fn manifest_paths_resolve_own_and_workspace_paths() {
    let workspace = r#"
[workspace.dependencies]
kernel = { path = "packages\\kernel" }
serde = "1"
"#;
    let manifest = r#"
[package]
name = "counter-service"

[dependencies]
kernel = { workspace = true }
serde = { workspace = true }
contracts_api = { path = "../../packages/contracts/api" }
tokio = "1"

[dev-dependencies]
kernel = { workspace = true }
"#;
    let paths = manifest_dependency_paths(manifest, workspace, "services/counter-service").unwrap();
    assert_eq!(paths, vec!["packages/kernel", "services/counter-service/../../packages/contracts/api"]);
    assert!(manifest_dependency_paths("[broken", workspace, "x").is_none());
    assert!(manifest_dependency_paths(manifest, "= nope", "x").is_none());
}

#[test]
fn package_name_from_manifest_or_directory() {
    assert_eq!(contract_package_name("[package]\nname = \"contracts_api\"\n", "api").as_deref(), Some("contracts_api"));
    assert_eq!(contract_package_name("[lib]\n", "api").as_deref(), Some("api"));
    assert!(contract_package_name("[package", "api").is_none());
}

#[test]
fn metadata_dependencies_of_named_package() {
    let json = r#"{"packages":[
        {"name":"kernel","manifest_path":"/r/packages/kernel/Cargo.toml","dependencies":[
            {"name":"serde","kind":null},{"name":"tokio","kind":"dev"}]},
        {"name":"bare"}]}"#;
    let deps = metadata_dependencies(json, "kernel").unwrap().unwrap();
    assert_eq!(deps.len(), 2);
    assert_eq!(deps[0].name.as_deref(), Some("serde"));
    assert_eq!(deps[0].kind, None);
    assert_eq!(deps[1].kind.as_deref(), Some("dev"));
    assert!(metadata_dependencies(json, "bare").unwrap().unwrap().is_empty());
    assert!(metadata_dependencies(json, "missing").unwrap().is_none());
    assert!(metadata_dependencies("{\"x\":1}", "kernel").is_none());
    assert!(metadata_dependencies("not json", "kernel").is_none());
    assert_eq!(
        metadata_manifest_path(json, "kernel").unwrap().as_deref(),
        Some("/r/packages/kernel/Cargo.toml")
    );
    assert_eq!(metadata_manifest_path(json, "bare").unwrap(), None);
}

#[test]
fn secret_object_kind_and_name() {
    let manifest = "apiVersion: v1\nkind: Secret\nmetadata:\n  name: web-bff\n";
    assert_eq!(secret_object(manifest, "f"), Some(("Secret".to_string(), "web-bff".to_string())));
    assert_eq!(secret_object("a: 1\n", "f"), Some(("unknown".to_string(), "f".to_string())));
    assert!(secret_object("a: [", "f").is_none());
}
