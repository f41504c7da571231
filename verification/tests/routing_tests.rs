use axum_harness::routing::{
    agent_for, agent_patterns, check_handoff, legacy_agents, path_matches_boundary,
    relevant_rule_count, route_paths, RoutingRule,
};

fn rule(pattern: &str, primary: &str) -> RoutingRule {
    RoutingRule { pattern: pattern.to_string(), primary: primary.to_string() }
}

fn strings(v: &[&str]) -> Vec<String> {
    v.iter().map(|s| s.to_string()).collect()
}

#[test]
fn first_matching_rule_owns_a_path() {
    let rules = vec![rule("services/**", "service-agent"), rule("services/counter-service/**", "counter-agent")];
    assert_eq!(agent_for("services/counter-service/src", &rules), Some("service-agent".to_string()));
    assert_eq!(agent_for("docs/readme.md", &rules), None);
}

#[test]
fn routing_follows_dispatch_order_with_planner_first() {
    let rules = vec![
        rule("services/**", "service-agent"),
        rule("servers/**", "server-agent"),
        rule("agent/**", "planner"),
    ];
    let paths = strings(&["servers/bff", "services/a", "agent/codemap.yml", "README.md"]);
    let order = strings(&["server-agent", "service-agent", "(verify)", "idle-agent"]);
    let plan = route_paths(&paths, &rules, &order);
    assert!(plan.routed);
    assert_eq!(plan.planner_paths, strings(&["agent/codemap.yml"]));
    assert_eq!(plan.affected.len(), 2);
    assert_eq!(plan.affected[0].0, "server-agent");
    assert_eq!(plan.affected[0].1, strings(&["servers/bff"]));
    assert_eq!(plan.affected[1].0, "service-agent");
    assert_eq!(plan.dispatch, strings(&["planner", "server-agent", "service-agent", "(verify)"]));
}

#[test]
fn unrouted_paths_leave_only_verify() {
    let plan = route_paths(&strings(&["README.md"]), &vec![rule("services/**", "s")], &strings(&["s"]));
    assert!(!plan.routed);
    assert_eq!(plan.dispatch, strings(&["(verify)"]));
}

#[test]
fn legacy_agents_are_sorted_without_planner() {
    let rules = vec![rule("a/**", "zeta"), rule("b/**", "planner"), rule("c/**", "alpha"), rule("d/**", "zeta")];
    assert_eq!(legacy_agents(&rules), strings(&["alpha", "zeta"]));
    assert_eq!(agent_patterns(&rules, "zeta"), strings(&["a/**", "d/**"]));
}

#[test]
fn gate_rules_concern_overlapping_patterns() {
    let gate_rules = vec![strings(&["services/**"]), strings(&["docs/**", "servers/*"]), strings(&["infra/**"])];
    let agent = strings(&["services/counter-service", "servers/bff"]);
    assert_eq!(relevant_rule_count(&gate_rules, &agent), 2);
}

#[test]
fn boundaries_match_prefix_or_nested_segment() {
    assert!(path_matches_boundary("services/a/src/lib.rs", "services/a"));
    assert!(path_matches_boundary("repo/services/a/x", "services/a"));
    assert!(!path_matches_boundary("myservices/a", "services/a"));
}

#[test]
fn handoff_reports_readonly_violations() {
    let paths = strings(&["services/a/lib.rs", "packages/contracts/gen.ts", "README.md"]);
    let check = check_handoff(&paths, &strings(&["services/a"]), &strings(&["packages/contracts"]));
    assert_eq!(check.valid, strings(&["services/a/lib.rs", "README.md"]));
    assert_eq!(
        check.violations,
        strings(&["packages/contracts/gen.ts (read-only - generated or owned by another agent)"])
    );
}

#[test]
fn writable_boundary_overrides_readonly() {
    let paths = strings(&["packages/contracts/api/x.rs"]);
    let check = check_handoff(&paths, &strings(&["packages/contracts/api"]), &strings(&["packages/contracts"]));
    assert_eq!(check.valid, paths);
    assert!(check.violations.is_empty());
}

#[test]
fn every_dispatch_ends_with_verify_alone() {
    let rules = vec![rule("agent/**", "planner"), rule("services/**", "service-agent"), rule("servers/**", "server-agent")];
    let order = strings(&["server-agent", "service-agent", "(verify)"]);
    for paths in [
        strings(&["agent/x", "services/a", "servers/b"]),
        strings(&["services/a"]),
        strings(&["docs/none"]),
    ] {
        let plan = route_paths(&paths, &rules, &order);
        assert_eq!(plan.dispatch.last().map(String::as_str), Some("(verify)"));
        for agent in &plan.dispatch[..plan.dispatch.len() - 1] {
            assert_ne!(agent, "(verify)");
            assert!(agent == "planner" || order.contains(agent));
        }
    }
}
