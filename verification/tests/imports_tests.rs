use axum_harness::imports::{family_of, import_findings, ImportRule};

fn strings(v: &[&str]) -> Vec<String> {
    v.iter().map(|s| s.to_string()).collect()
}

fn rule(name: Option<&str>, from: &[&str], disallow: &[&str], allow: &[&str], except: &[&str], same: bool) -> ImportRule {
    ImportRule {
        name: name.map(String::from),
        from: strings(from),
        disallow: strings(disallow),
        allow: strings(allow),
        except: strings(except),
        except_same_module: same,
    }
}

#[test]
fn families_are_first_segments() {
    assert_eq!(family_of("services/counter-service"), "services");
    assert_eq!(family_of("Cargo"), "Cargo");
}

#[test]
fn forbidden_and_outside_allowlist_dependencies_are_reported() {
    let rules = vec![
        rule(Some("no-servers"), &["services/**"], &["servers/**"], &["packages/**"], &[], true),
        rule(None, &["workers/**"], &["services/**"], &[], &[], false),
    ];
    let deps = strings(&["packages/kernel", "servers/web-bff", "services/counter-service/sub", "infra/tool", "services/other"]);
    let got: Vec<(bool, String, String)> = import_findings(&rules, "services/counter-service", &deps, true)
        .into_iter()
        .map(|f| (f.error, f.scope, f.message))
        .collect();
    assert_eq!(
        got,
        vec![
            (true, "services/counter-service".to_string(), "depends on forbidden path servers/web-bff (rule: no-servers)".to_string()),
            (true, "services/counter-service".to_string(), "depends on path outside allowlist: infra/tool (rule: no-servers)".to_string()),
        ]
    );
}

#[test]
fn exceptions_and_unnamed_rules() {
    let rules = vec![rule(None, &["workers/**"], &["services/**"], &[], &["workers/**:services/counter-service"], false)];
    let deps = strings(&["services/counter-service", "services/auth-service"]);
    let got: Vec<String> = import_findings(&rules, "workers/projector", &deps, false).into_iter().map(|f| f.message).collect();
    assert_eq!(got, strings(&["depends on forbidden path services/auth-service (rule: unnamed)"]));
    assert!(import_findings(&rules, "services/x", &deps, false).is_empty());
}
