//! Delivery evidence: the artifacts and documented facts that the counter
//! delivery chain and the projector replay lane must have, and the failures
//! that their absence makes.
//!
//! The caller reads each listed file (or finds it missing) and hands the
//! texts over, one per table entry.
use vstd::prelude::*;

use crate::gate::string_views;
use crate::pattern::{regex_compiles, regex_is_match, regex_match_result};
use crate::text::{chars_of, push_str, string_of};

verus! {

/// The artifacts the counter delivery chain must have.
pub open spec fn delivery_artifacts() -> Seq<Seq<char>> {
    seq![
        "infra/security/sops/dev/counter-shared-db.enc.yaml"@,
        "infra/k3s/overlays/dev/outbox-relay-worker/kustomization.yaml"@,
        "infra/k3s/overlays/dev/projector-worker/kustomization.yaml"@,
        "infra/k3s/overlays/staging/outbox-relay-worker/kustomization.yaml"@,
        "infra/k3s/overlays/staging/projector-worker/kustomization.yaml"@,
        "infra/gitops/flux/apps/staging-outbox-relay-worker.yaml"@,
        "infra/gitops/flux/apps/staging-projector-worker.yaml"@,
        "infra/gitops/flux/apps/outbox-relay-worker.yaml"@,
        "infra/gitops/flux/apps/projector-worker.yaml"@,
        "docs/operations/counter-service-reference-chain.md"@,
        "ops/runbooks/counter-delivery.md"@,
        "platform/model/deployables/web-bff.yaml"@,
        "platform/model/deployables/outbox-relay-worker.yaml"@,
        "platform/model/deployables/projector-worker.yaml"@,
        "platform/model/deployables/counter-service.yaml"@,
        "platform/model/services/counter-service.yaml"@,
        "platform/model/state/ownership-map.yaml"@,
    ]
}

/// A documented fact: the file, the pattern its text must match, and why.
#[derive(Debug, Clone)]
pub struct EvidenceRule {
    pub path: String,
    pub pattern: String,
    pub reason: String,
}

/// A rule as plain values.
pub open spec fn rule_view(r: EvidenceRule) -> (Seq<char>, Seq<char>, Seq<char>) {
    (r.path@, r.pattern@, r.reason@)
}

/// The documented facts of the counter delivery chain.
pub open spec fn delivery_rules_spec() -> Seq<(Seq<char>, Seq<char>, Seq<char>)> {
    seq![
        ("infra/k3s/overlays/dev/outbox-relay-worker/kustomization.yaml"@, "counter-shared-db-secrets"@, "outbox relay overlay must consume counter shared DB secret"@),
        ("infra/k3s/overlays/dev/projector-worker/kustomization.yaml"@, "counter-shared-db-secrets"@, "projector overlay must consume counter shared DB secret"@),
        ("infra/k3s/overlays/dev/outbox-relay-worker/kustomization.yaml"@, "path:\\s*/spec/replicas[\\s\\S]*value:\\s*1"@, "outbox relay overlay must keep replicas patched to 1"@),
        ("infra/k3s/overlays/dev/projector-worker/kustomization.yaml"@, "path:\\s*/spec/replicas[\\s\\S]*value:\\s*1"@, "projector overlay must keep replicas patched to 1"@),
        ("infra/gitops/flux/apps/outbox-relay-worker.yaml"@, "path:\\s*\\./infra/k3s/overlays/dev/outbox-relay-worker"@, "outbox relay Flux app must point at its dev overlay"@),
        ("infra/gitops/flux/apps/projector-worker.yaml"@, "path:\\s*\\./infra/k3s/overlays/dev/projector-worker"@, "projector Flux app must point at its dev overlay"@),
        ("infra/gitops/flux/apps/staging-outbox-relay-worker.yaml"@, "path:\\s*\\./infra/k3s/overlays/staging/outbox-relay-worker"@, "staging outbox relay Flux app must point at its staging overlay"@),
        ("infra/gitops/flux/apps/staging-projector-worker.yaml"@, "path:\\s*\\./infra/k3s/overlays/staging/projector-worker"@, "staging projector Flux app must point at its staging overlay"@),
        ("infra/gitops/flux/apps/staging-outbox-relay-worker.yaml"@, "ENV:\\s*staging"@, "staging outbox relay Flux app must substitute ENV=staging"@),
        ("infra/k3s/overlays/staging/outbox-relay-worker/kustomization.yaml"@, "counter-shared-db-staging"@, "staging outbox relay overlay must reference staging counter DB secret"@),
        ("docs/operations/counter-service-reference-chain.md"@, "verify-counter-delivery|counter delivery gate"@, "counter reference chain must mention executable delivery admission"@),
        ("ops/runbooks/counter-delivery.md"@, "just verify-counter-delivery strict|counter-shared-db"@, "counter delivery runbook must document executable admission and shared DB checks"@),
        ("platform/model/state/ownership-map.yaml"@, "entity:\\s*counter"@, "ownership-map must declare counter entity owner"@),
        ("platform/model/deployables/web-bff.yaml"@, "counter-service"@, "web-bff deployable must list counter-service"@),
        ("platform/model/deployables/counter-service.yaml"@, "current_status:\\s*embedded[\\s\\S]*target_status:\\s*independent[\\s\\S]*embedded_in:\\s*\\n\\s*-\\s*web-bff"@, "counter-service deployable must distinguish current embedded status from independent target status"@),
        ("platform/model/deployables/projector-worker.yaml"@, "runtime_profile:\\s*async-projection"@, "projector-worker deployable must declare async-projection profile"@),
        ("ops/runbooks/counter-delivery.md"@, "rollback"@, "counter delivery runbook must document rollback procedure"@),
    ]
}

/// Views of rules.
pub open spec fn rule_views(v: Seq<EvidenceRule>) -> Seq<(Seq<char>, Seq<char>, Seq<char>)> {
    v.map_values(|r: EvidenceRule| rule_view(r))
}

/// The artifacts the counter delivery chain must have, in order.
pub fn delivery_artifact_paths() -> (r: Vec<&'static str>)
    ensures
        r@.map_values(|s: &str| s@) == delivery_artifacts(),
{
    let r = vec![
        "infra/security/sops/dev/counter-shared-db.enc.yaml",
        "infra/k3s/overlays/dev/outbox-relay-worker/kustomization.yaml",
        "infra/k3s/overlays/dev/projector-worker/kustomization.yaml",
        "infra/k3s/overlays/staging/outbox-relay-worker/kustomization.yaml",
        "infra/k3s/overlays/staging/projector-worker/kustomization.yaml",
        "infra/gitops/flux/apps/staging-outbox-relay-worker.yaml",
        "infra/gitops/flux/apps/staging-projector-worker.yaml",
        "infra/gitops/flux/apps/outbox-relay-worker.yaml",
        "infra/gitops/flux/apps/projector-worker.yaml",
        "docs/operations/counter-service-reference-chain.md",
        "ops/runbooks/counter-delivery.md",
        "platform/model/deployables/web-bff.yaml",
        "platform/model/deployables/outbox-relay-worker.yaml",
        "platform/model/deployables/projector-worker.yaml",
        "platform/model/deployables/counter-service.yaml",
        "platform/model/services/counter-service.yaml",
        "platform/model/state/ownership-map.yaml",
    ];
    assert(r@.map_values(|s: &str| s@) =~= delivery_artifacts());
    r
}

/// A rule from literals.
fn evidence(path: &str, pattern: &str, reason: &str) -> (r: EvidenceRule)
    ensures
        rule_view(r) == (path@, pattern@, reason@),
{
    EvidenceRule { path: path.to_string(), pattern: pattern.to_string(), reason: reason.to_string() }
}

/// The documented facts of the counter delivery chain, in order.
pub fn delivery_rules() -> (r: Vec<EvidenceRule>)
    ensures
        rule_views(r@) == delivery_rules_spec(),
{
    let mut r: Vec<EvidenceRule> = Vec::new();
    r.push(evidence("infra/k3s/overlays/dev/outbox-relay-worker/kustomization.yaml", r"counter-shared-db-secrets", "outbox relay overlay must consume counter shared DB secret"));
    r.push(evidence("infra/k3s/overlays/dev/projector-worker/kustomization.yaml", r"counter-shared-db-secrets", "projector overlay must consume counter shared DB secret"));
    r.push(evidence("infra/k3s/overlays/dev/outbox-relay-worker/kustomization.yaml", r"path:\s*/spec/replicas[\s\S]*value:\s*1", "outbox relay overlay must keep replicas patched to 1"));
    r.push(evidence("infra/k3s/overlays/dev/projector-worker/kustomization.yaml", r"path:\s*/spec/replicas[\s\S]*value:\s*1", "projector overlay must keep replicas patched to 1"));
    r.push(evidence("infra/gitops/flux/apps/outbox-relay-worker.yaml", r"path:\s*\./infra/k3s/overlays/dev/outbox-relay-worker", "outbox relay Flux app must point at its dev overlay"));
    r.push(evidence("infra/gitops/flux/apps/projector-worker.yaml", r"path:\s*\./infra/k3s/overlays/dev/projector-worker", "projector Flux app must point at its dev overlay"));
    r.push(evidence("infra/gitops/flux/apps/staging-outbox-relay-worker.yaml", r"path:\s*\./infra/k3s/overlays/staging/outbox-relay-worker", "staging outbox relay Flux app must point at its staging overlay"));
    r.push(evidence("infra/gitops/flux/apps/staging-projector-worker.yaml", r"path:\s*\./infra/k3s/overlays/staging/projector-worker", "staging projector Flux app must point at its staging overlay"));
    r.push(evidence("infra/gitops/flux/apps/staging-outbox-relay-worker.yaml", r"ENV:\s*staging", "staging outbox relay Flux app must substitute ENV=staging"));
    r.push(evidence("infra/k3s/overlays/staging/outbox-relay-worker/kustomization.yaml", r"counter-shared-db-staging", "staging outbox relay overlay must reference staging counter DB secret"));
    r.push(evidence("docs/operations/counter-service-reference-chain.md", r"verify-counter-delivery|counter delivery gate", "counter reference chain must mention executable delivery admission"));
    r.push(evidence("ops/runbooks/counter-delivery.md", r"just verify-counter-delivery strict|counter-shared-db", "counter delivery runbook must document executable admission and shared DB checks"));
    r.push(evidence("platform/model/state/ownership-map.yaml", r"entity:\s*counter", "ownership-map must declare counter entity owner"));
    r.push(evidence("platform/model/deployables/web-bff.yaml", r"counter-service", "web-bff deployable must list counter-service"));
    r.push(evidence("platform/model/deployables/counter-service.yaml", r"current_status:\s*embedded[\s\S]*target_status:\s*independent[\s\S]*embedded_in:\s*\n\s*-\s*web-bff", "counter-service deployable must distinguish current embedded status from independent target status"));
    r.push(evidence("platform/model/deployables/projector-worker.yaml", r"runtime_profile:\s*async-projection", "projector-worker deployable must declare async-projection profile"));
    r.push(evidence("ops/runbooks/counter-delivery.md", r"rollback", "counter delivery runbook must document rollback procedure"));
    assert(rule_views(r@) =~= delivery_rules_spec());
    r
}

/// The failures for missing artifacts, in order.
pub open spec fn missing_artifacts(paths: Seq<Seq<char>>, present: Seq<bool>) -> Seq<Seq<char>>
    decreases paths.len(),
{
    if paths.len() == 0 {
        Seq::empty()
    } else {
        let n = (paths.len() - 1) as int;
        let rest = missing_artifacts(paths.drop_last(), present);
        if present[n] {
            rest
        } else {
            rest.push(paths[n] + ": required counter delivery artifact missing"@)
        }
    }
}

/// Texts as plain values.
pub open spec fn text_views(v: Seq<Option<String>>) -> Seq<Option<Seq<char>>> {
    v.map_values(|o: Option<String>| match o {
        Some(s) => Some(s@),
        None => None,
    })
}

/// The failures of the counter delivery verification, in order: missing
/// artifacts (one presence flag per artifact), unmet documented facts (one
/// text per rule, `None` where the file is missing), and a failed shared
/// database secret check. `None` where a rule's pattern does not compile.
pub fn delivery_failures(present: &Vec<bool>, texts: &Vec<Option<String>>, secret_error: &Option<String>) -> (r: Option<Vec<String>>)
    requires
        present@.len() == delivery_artifacts().len(),
        texts@.len() == delivery_rules_spec().len(),
    ensures
        r is None ==> exists|i: int| 0 <= i < texts@.len() && texts@[i] is Some && !regex_compiles(
            (#[trigger] delivery_rules_spec()[i]).1,
        ),
        r matches Some(v) ==> string_views(v@) == missing_artifacts(delivery_artifacts(), present@)
            + rule_failures_views(delivery_rules_spec(), text_views(texts@)) + match *secret_error {
            Some(e) => seq!["counter shared DB secret verification failed: "@ + e@],
            None => Seq::<Seq<char>>::empty(),
        },
{
    let paths = delivery_artifact_paths();
    let mut out: Vec<String> = Vec::new();
    let mut i: usize = 0;
    while i < paths.len()
        invariant
            i <= paths@.len(),
            paths@.map_values(|s: &str| s@) == delivery_artifacts(),
            present@.len() == paths@.len(),
            string_views(out@) == missing_artifacts(delivery_artifacts().take(i as int), present@),
        decreases paths@.len() - i,
    {
        proof {
            assert(delivery_artifacts().take(i + 1).drop_last() =~= delivery_artifacts().take(i as int));
        }
        if !present[i] {
            let mut m = chars_of(paths[i]);
            push_str(&mut m, ": required counter delivery artifact missing");
            let ghost before = string_views(out@);
            out.push(string_of(&m));
            proof {
                assert(string_views(out@) =~= before.push(delivery_artifacts()[i as int] + ": required counter delivery artifact missing"@));
            }
        }
        i = i + 1;
    }
    assert(delivery_artifacts().take(paths@.len() as int) =~= delivery_artifacts());
    let rules = delivery_rules();
    let ghost base = string_views(out@);
    let ghost tv = text_views(texts@);
    let mut k: usize = 0;
    while k < rules.len()
        invariant
            k <= rules@.len(),
            rule_views(rules@) == delivery_rules_spec(),
            texts@.len() == rules@.len(),
            tv == text_views(texts@),
            string_views(out@) == base + rule_failures_views(delivery_rules_spec().take(k as int), tv),
        decreases rules@.len() - k,
    {
        proof {
            assert(delivery_rules_spec().take(k + 1).drop_last() =~= delivery_rules_spec().take(k as int));
            assert(rule_view(rules@[k as int]) == delivery_rules_spec()[k as int]);
        }
        let rule = &rules[k];
        let ghost before = string_views(out@);
        match &texts[k] {
            None => {
                let mut m = chars_of(rule.path.as_str());
                push_str(&mut m, ": missing file");
                out.push(string_of(&m));
                proof {
                    assert(string_views(out@) =~= before.push(rule.path@ + ": missing file"@));
                }
            },
            Some(t) => {
                match regex_is_match(rule.pattern.as_str(), t.as_str()) {
                    None => {
                        proof {
                            assert(texts@[k as int] is Some);
                        }
                        return None;
                    },
                    Some(true) => {},
                    Some(false) => {
                        let mut m = chars_of(rule.path.as_str());
                        push_str(&mut m, ": ");
                        push_str(&mut m, rule.reason.as_str());
                        out.push(string_of(&m));
                        proof {
                            assert(string_views(out@) =~= before.push(rule.path@ + ": "@ + rule.reason@));
                        }
                    },
                }
            },
        }
        k = k + 1;
    }
    assert(delivery_rules_spec().take(rules@.len() as int) =~= delivery_rules_spec());
    match secret_error {
        Some(e) => {
            let mut m = chars_of("counter shared DB secret verification failed: ");
            push_str(&mut m, e.as_str());
            let ghost before = string_views(out@);
            out.push(string_of(&m));
            proof {
                assert(string_views(out@) =~= before + seq!["counter shared DB secret verification failed: "@ + e@]);
            }
        },
        None => {
            assert(string_views(out@) =~= string_views(out@) + Seq::<Seq<char>>::empty());
        },
    }
    Some(out)
}

/// The failures of the documented facts, over plain rules.
pub open spec fn rule_failures_views(rules: Seq<(Seq<char>, Seq<char>, Seq<char>)>, texts: Seq<Option<Seq<char>>>) -> Seq<Seq<char>>
    decreases rules.len(),
{
    if rules.len() == 0 {
        Seq::empty()
    } else {
        let n = (rules.len() - 1) as int;
        let rest = rule_failures_views(rules.drop_last(), texts);
        let r = rules[n];
        match texts[n] {
            None => rest.push(r.0 + ": missing file"@),
            Some(t) => if regex_match_result(r.1, t) {
                rest
            } else {
                rest.push(r.0 + ": "@ + r.2)
            },
        }
    }
}

// ---------------------------------------------------------------------------
// Replay lane
// ---------------------------------------------------------------------------

/// The replay lane's checks: the file, the failure message, and the pattern
/// its text must match (none where the file's presence is enough).
pub open spec fn replay_checks_spec() -> Seq<(Seq<char>, Seq<char>, Option<Seq<char>>)> {
    seq![
        ("workers/projector/src/replay/mod.rs"@, "projector replay module missing"@, None),
        ("workers/projector/README.md"@, "projector README missing replay/rebuild guidance"@, Some("replay|rebuild"@)),
        ("services/counter-service/README.md"@, "counter reference missing projection/replay note"@, Some("projection|replay"@)),
        ("platform/model/deployables/projector-worker.yaml"@, "projector deployable missing async projection profile"@, Some("async-projection"@)),
        ("verification/golden/README.md"@, "golden README missing replay lane documentation"@, Some("replay"@)),
    ]
}

/// The failures of the replay checks, in order.
pub open spec fn replay_failures_spec(checks: Seq<(Seq<char>, Seq<char>, Option<Seq<char>>)>, texts: Seq<Option<Seq<char>>>) -> Seq<Seq<char>>
    decreases checks.len(),
{
    if checks.len() == 0 {
        Seq::empty()
    } else {
        let n = (checks.len() - 1) as int;
        let rest = replay_failures_spec(checks.drop_last(), texts);
        let c = checks[n];
        let failed = match texts[n] {
            None => true,
            Some(t) => match c.2 {
                Some(p) => !regex_match_result(p, t),
                None => false,
            },
        };
        if failed {
            rest.push(c.0 + ": "@ + c.1)
        } else {
            rest
        }
    }
}

/// The check has a pattern and it does not compile.
pub open spec fn pattern_fails(p: Option<Seq<char>>) -> bool {
    match p {
        Some(x) => !regex_compiles(x),
        None => false,
    }
}

/// The paths the replay checks read, in order.
pub fn replay_paths() -> (r: Vec<&'static str>)
    ensures
        r@.len() == replay_checks_spec().len(),
        forall|i: int| 0 <= i < r@.len() ==> (#[trigger] r@[i])@ == replay_checks_spec()[i].0,
{
    let r = vec![
        "workers/projector/src/replay/mod.rs",
        "workers/projector/README.md",
        "services/counter-service/README.md",
        "platform/model/deployables/projector-worker.yaml",
        "verification/golden/README.md",
    ];
    assert(r@.map_values(|s: &str| s@) =~= replay_checks_spec().map_values(|c: (Seq<char>, Seq<char>, Option<Seq<char>>)| c.0));
    assert forall|i: int| 0 <= i < r@.len() implies (#[trigger] r@[i])@ == replay_checks_spec()[i].0 by {
        assert(r@.map_values(|s: &str| s@)[i] == r@[i]@);
    }
    r
}

/// The failures of the replay lane verification, one text per check (`None`
/// where the file is missing); `None` where a pattern does not compile.
pub fn replay_failures(texts: &Vec<Option<String>>) -> (r: Option<Vec<String>>)
    requires
        texts@.len() == replay_checks_spec().len(),
    ensures
        r matches Some(v) ==> string_views(v@) == replay_failures_spec(replay_checks_spec(), text_views(texts@)),
        r is None ==> exists|i: int| 0 <= i < replay_checks_spec().len() && texts@[i] is Some && pattern_fails(
            #[trigger] replay_checks_spec()[i].2),
{
    let checks: [(&str, &str, Option<&str>); 5] = [
        ("workers/projector/src/replay/mod.rs", "projector replay module missing", None),
        ("workers/projector/README.md", "projector README missing replay/rebuild guidance", Some("replay|rebuild")),
        ("services/counter-service/README.md", "counter reference missing projection/replay note", Some("projection|replay")),
        ("platform/model/deployables/projector-worker.yaml", "projector deployable missing async projection profile", Some("async-projection")),
        ("verification/golden/README.md", "golden README missing replay lane documentation", Some("replay")),
    ];
    let ghost cv = checks@.map_values(|c: (&str, &str, Option<&str>)| (c.0@, c.1@, match c.2 { Some(p) => Some(p@), None => None }));
    assert(cv =~= replay_checks_spec());
    let ghost tv = text_views(texts@);
    let mut out: Vec<String> = Vec::new();
    let mut i: usize = 0;
    while i < 5
        invariant
            i <= 5,
            checks@.len() == 5,
            texts@.len() == 5,
            cv == checks@.map_values(|c: (&str, &str, Option<&str>)| (c.0@, c.1@, match c.2 { Some(p) => Some(p@), None => None })),
            cv == replay_checks_spec(),
            tv == text_views(texts@),
            string_views(out@) == replay_failures_spec(cv.take(i as int), tv),
        decreases 5 - i,
    {
        proof {
            assert(cv.take(i + 1).drop_last() =~= cv.take(i as int));
            assert(cv.take(i + 1)[i as int] == cv[i as int]);
        }
        let (path, message, pattern) = checks[i];
        let failed = match &texts[i] {
            None => true,
            Some(t) => match pattern {
                Some(p) => match regex_is_match(p, t.as_str()) {
                    Some(b) => !b,
                    None => {
                        proof {
                            assert(cv[i as int].2 == Some(p@));
                            assert(texts@[i as int] is Some);
                        }
                        return None;
                    },
                },
                None => false,
            },
        };
        if failed {
            let mut m = chars_of(path);
            push_str(&mut m, ": ");
            push_str(&mut m, message);
            let ghost before = string_views(out@);
            out.push(string_of(&m));
            proof {
                assert(string_views(out@) =~= before.push(path@ + ": "@ + message@));
            }
        }
        i = i + 1;
    }
    assert(cv.take(5) =~= cv);
    Some(out)
}

} // verus!
