//! Platform state model checks: each entity has one owning service, and the
//! platform ownership map agrees with the services' own models; workflow
//! definitions declare idempotency, checkpoints, compensation and recovery.
use vstd::prelude::*;

use crate::pattern::{
    capture_views, first_capture, regex_captures, regex_captures_result, regex_compiles,
    regex_first_capture,
};
use crate::report::{escalates, flagged_views, lemma_escalates_concat, lemma_escalates_push, lemma_escalates_refl, lemma_escalates_single, Flagged};
use crate::secrets::{entries_map, export_get, export_views, insert_export, sorted_keys};
use crate::text::{
    chars_of, contains, contains_chars, find, first_occurrence, lemma_first_occurrence_range,
    lines, push_str, replace_all, replace_str, slice, split_lines, split_on_str, split_str,
    string_of, trim, trim_chars,
};

verus! {

/// Pattern of the entity name at the start of an ownership-map block.
pub const ENTITY_PATTERN: &'static str = r"^\s*([a-z][a-z0-9_-]*)";

/// Pattern of a block's owning service.
pub const OWNER_PATTERN: &'static str = r"(?m)^\s*owner_service:\s*([a-z][a-z0-9-]*)\s*$";

/// Pattern of a service model's name.
pub const SERVICE_NAME_PATTERN: &'static str = r"(?m)^\s*name:\s*([a-z][a-z0-9-]*)\s*$";

/// Pattern of an owned entity in a service model.
pub const OWNED_ENTITY_PATTERN: &'static str = r"(?m)^\s*-\s+name:\s*([a-z][a-z0-9_-]*)\s*$";

/// All four patterns compile.
pub open spec fn state_patterns_compile() -> bool {
    &&& regex_compiles(ENTITY_PATTERN@)
    &&& regex_compiles(OWNER_PATTERN@)
    &&& regex_compiles(SERVICE_NAME_PATTERN@)
    &&& regex_compiles(OWNED_ENTITY_PATTERN@)
}

/// The `(entity, owner)` pairs of the ownership-map blocks, in order; a block
/// without both is left out.
pub open spec fn ownership_pairs(blocks: Seq<Seq<char>>) -> Seq<(Seq<char>, Seq<char>)>
    decreases blocks.len(),
{
    if blocks.len() == 0 {
        Seq::empty()
    } else {
        let rest = ownership_pairs(blocks.drop_last());
        let b = blocks.last();
        match (first_capture(ENTITY_PATTERN@, b, 1), first_capture(OWNER_PATTERN@, b, 1)) {
            (Some(e), Some(o)) => rest.push((e, o)),
            _ => rest,
        }
    }
}

/// The ownership map: entity to owning service, a later block of the same
/// entity replacing an earlier one.
pub open spec fn ownership_map_spec(text: Seq<char>) -> Map<Seq<char>, Seq<char>> {
    entries_map(ownership_pairs(split_str(text, "- entity:"@).skip(1)))
}

/// The ownership map of the platform's ownership-map text, sorted by entity.
pub fn ownership_map(text: &str) -> (r: Vec<(String, String)>)
    requires
        state_patterns_compile(),
    ensures
        sorted_keys(export_views(r@)),
        entries_map(export_views(r@)) == ownership_map_spec(text@),
{
    proof {
        reveal_strlit("- entity:");
    }
    let sep = chars_of("- entity:");
    let blocks = split_on_str(&chars_of(text), &sep);
    let ghost bv = blocks@.map_values(|x: Vec<char>| x@);
    let ghost tail = bv.skip(1);
    let mut out: Vec<(String, String)> = Vec::new();
    let mut i: usize = 1;
    assert(tail.take(0) =~= Seq::<Seq<char>>::empty());
    while i < blocks.len()
        invariant
            1 <= i <= blocks@.len(),
            bv == blocks@.map_values(|x: Vec<char>| x@),
            tail == bv.skip(1),
            state_patterns_compile(),
            sorted_keys(export_views(out@)),
            entries_map(export_views(out@)) == entries_map(ownership_pairs(tail.take(i - 1))),
        decreases blocks@.len() - i,
    {
        proof {
            assert(tail.take(i as int).drop_last() =~= tail.take(i - 1));
            assert(tail.take(i as int).last() == blocks@[i as int]@);
        }
        let b = string_of(&blocks[i]);
        let entity = regex_first_capture(ENTITY_PATTERN, b.as_str(), 1);
        let owner = regex_first_capture(OWNER_PATTERN, b.as_str(), 1);
        match (entity, owner) {
            (Some(Some(e)), Some(Some(o))) => {
                let ghost prev = ownership_pairs(tail.take(i - 1));
                insert_export(&mut out, e, o);
                proof {
                    assert(prev.push((e@, o@)).drop_last() =~= prev);
                }
            },
            _ => {},
        }
        i = i + 1;
    }
    proof {
        if blocks@.len() >= 1 {
            assert(tail.take(blocks@.len() - 1) =~= tail);
        }
    }
    out
}

/// A service's model file: the service directory's name and the text.
#[derive(Debug, Clone)]
pub struct ServiceModel {
    pub dir_name: String,
    pub content: String,
}

/// The service's name: the model's `name:` line, else the directory name.
pub open spec fn service_name(m: ServiceModel) -> Seq<char> {
    match first_capture(SERVICE_NAME_PATTERN@, m.content@, 1) {
        Some(n) => n,
        None => m.dir_name@,
    }
}

/// The model text from its `owns_entities:` section on (empty without one).
pub open spec fn owns_section(content: Seq<char>) -> Seq<char> {
    let i = first_occurrence(content, "owns_entities:"@);
    if i < 0 {
        Seq::empty()
    } else {
        content.subrange(i, content.len() as int)
    }
}

/// The captured names, in order.
pub open spec fn captured_names(caps: Seq<(nat, Option<Seq<char>>)>) -> Seq<Seq<char>>
    decreases caps.len(),
{
    if caps.len() == 0 {
        Seq::empty()
    } else {
        let rest = captured_names(caps.drop_last());
        match caps.last().1 {
            Some(n) => rest.push(n),
            None => rest,
        }
    }
}

/// The entities a service model declares it owns.
pub open spec fn owned_entities(content: Seq<char>) -> Seq<Seq<char>> {
    captured_names(regex_captures_result(OWNED_ENTITY_PATTERN@, owns_section(content), 1))
}

pub open spec fn multiple_owners_message(prior: Seq<char>, service: Seq<char>) -> Seq<char> {
    "entity declared by multiple services: "@ + prior + " and "@ + service
}

pub open spec fn missing_owner_message(service: Seq<char>) -> Seq<char> {
    "missing platform ownership-map entry for "@ + service
}

pub open spec fn owner_mismatch_message(owner: Seq<char>, service: Seq<char>) -> Seq<char> {
    "ownership-map says "@ + owner + ", service semantics say "@ + service
}

/// The findings for one declared entity, and the first-declaring services
/// afterwards.
pub open spec fn entity_step(
    seen: Map<Seq<char>, Seq<char>>,
    entity: Seq<char>,
    service: Seq<char>,
    ownership: Map<Seq<char>, Seq<char>>,
    strict: bool,
) -> (Seq<(bool, Seq<char>, Seq<char>)>, Map<Seq<char>, Seq<char>>) {
    let a: Seq<(bool, Seq<char>, Seq<char>)> = if seen.dom().contains(entity) && seen[entity] != service {
        seq![(true, entity, multiple_owners_message(seen[entity], service))]
    } else {
        Seq::empty()
    };
    let seen2 = if seen.dom().contains(entity) {
        seen
    } else {
        seen.insert(entity, service)
    };
    let b: Seq<(bool, Seq<char>, Seq<char>)> = if !ownership.dom().contains(entity) {
        seq![(strict, entity, missing_owner_message(service))]
    } else if ownership[entity] != service && ownership[entity] != replace_all(service, "-service"@, Seq::empty()) {
        seq![(true, entity, owner_mismatch_message(ownership[entity], service))]
    } else {
        Seq::empty()
    };
    (a + b, seen2)
}

/// The findings for a service's entities, threading the first-declaring
/// services.
pub open spec fn entities_fold(
    entities: Seq<Seq<char>>,
    seen: Map<Seq<char>, Seq<char>>,
    service: Seq<char>,
    ownership: Map<Seq<char>, Seq<char>>,
    strict: bool,
) -> (Seq<(bool, Seq<char>, Seq<char>)>, Map<Seq<char>, Seq<char>>)
    decreases entities.len(),
{
    if entities.len() == 0 {
        (Seq::empty(), seen)
    } else {
        let (f, m) = entities_fold(entities.drop_last(), seen, service, ownership, strict);
        let (g, m2) = entity_step(m, entities.last(), service, ownership, strict);
        (f + g, m2)
    }
}

pub open spec fn model_scope(dir_name: Seq<char>) -> Seq<char> {
    "services/"@ + dir_name + "/model.yaml"@
}

/// The findings for the services in order, threading the first-declaring
/// services.
pub open spec fn services_fold(
    services: Seq<ServiceModel>,
    ownership: Map<Seq<char>, Seq<char>>,
    strict: bool,
) -> (Seq<(bool, Seq<char>, Seq<char>)>, Map<Seq<char>, Seq<char>>)
    decreases services.len(),
{
    if services.len() == 0 {
        (Seq::empty(), Map::empty())
    } else {
        let (f, m) = services_fold(services.drop_last(), ownership, strict);
        let s = services.last();
        let entities = owned_entities(s.content@);
        if entities.len() == 0 {
            (f.push((strict, model_scope(s.dir_name@), "missing owns_entities declarations"@)), m)
        } else {
            let (g, m2) = entities_fold(entities, m, service_name(s), ownership, strict);
            (f + g, m2)
        }
    }
}

/// The findings of the state validation.
pub open spec fn state_findings_spec(ownership_text: Option<Seq<char>>, services: Seq<ServiceModel>, strict: bool) -> Seq<(bool, Seq<char>, Seq<char>)> {
    let ownership = match ownership_text {
        Some(t) => ownership_map_spec(t),
        None => Map::empty(),
    };
    services_fold(services, ownership, strict).0
}

/// The names captured by group 1 of `pattern` in `text`.
fn captured(pattern: &str, text: &str) -> (r: Vec<String>)
    requires
        regex_compiles(pattern@),
    ensures
        crate::gate::string_views(r@) == captured_names(regex_captures_result(pattern@, text@, 1)),
{
    let caps = match regex_captures(pattern, text, 1) {
        Some(c) => c,
        None => Vec::new(),
    };
    let ghost cv = capture_views(caps@);
    let mut out: Vec<String> = Vec::new();
    let mut i: usize = 0;
    while i < caps.len()
        invariant
            i <= caps@.len(),
            cv == capture_views(caps@),
            crate::gate::string_views(out@) == captured_names(cv.take(i as int)),
        decreases caps@.len() - i,
    {
        proof {
            assert(cv.take(i + 1).drop_last() =~= cv.take(i as int));
            assert(cv.take(i + 1).last() == cv[i as int]);
        }
        match &caps[i].1 {
            Some(n) => {
                let ghost before = crate::gate::string_views(out@);
                out.push(n.clone());
                proof {
                    assert(crate::gate::string_views(out@) =~= before.push(n@));
                }
            },
            None => {},
        }
        i = i + 1;
    }
    assert(cv.take(caps@.len() as int) =~= cv);
    out
}

/// The text from the first `owns_entities:` on.
fn owns_section_of(content: &str) -> (r: String)
    ensures
        r@ == owns_section(content@),
{
    let c = chars_of(content);
    let marker = chars_of("owns_entities:");
    proof {
        lemma_first_occurrence_range(content@, "owns_entities:"@);
    }
    match find(&c, &marker) {
        Some(i) => {
            proof {
                let f = first_occurrence(content@, "owns_entities:"@);
                if f < 0 {
                    assert(crate::text::occurs_at(content@, "owns_entities:"@, i as int));
                }
                assert(f == i);
            }
            string_of(&slice(&c, i, c.len()))
        },
        None => {
            proof {
                if first_occurrence(content@, "owns_entities:"@) >= 0 {
                    assert(contains(content@, "owns_entities:"@));
                }
            }
            String::new()
        },
    }
}

/// The findings of the state validation: every service model must declare
/// the entities it owns; an entity declared by two services is an error; the
/// ownership map must name each entity's owner, as the service's name or that
/// name without `-service`. `ownership_text` is the ownership map, where it
/// exists.
pub fn state_findings(ownership_text: &Option<String>, services: &Vec<ServiceModel>, strict: bool) -> (r: Vec<Flagged>)
    requires
        state_patterns_compile(),
    ensures
        flagged_views(r@) == state_findings_spec(
            match *ownership_text {
                Some(t) => Some(t@),
                None => None,
            },
            services@,
            strict,
        ),
{
    let ownership = match ownership_text {
        Some(t) => ownership_map(t.as_str()),
        None => Vec::new(),
    };
    let ghost om = entries_map(export_views(ownership@));
    proof {
        if ownership_text.is_none() {
            assert(om =~= Map::<Seq<char>, Seq<char>>::empty());
        }
    }
    let mut seen: Vec<(String, String)> = Vec::new();
    let mut out: Vec<Flagged> = Vec::new();
    let mut i: usize = 0;
    assert(entries_map(export_views(seen@)) =~= Map::<Seq<char>, Seq<char>>::empty());
    while i < services.len()
        invariant
            i <= services@.len(),
            state_patterns_compile(),
            sorted_keys(export_views(ownership@)),
            om == entries_map(export_views(ownership@)),
            sorted_keys(export_views(seen@)),
            (flagged_views(out@), entries_map(export_views(seen@))) == services_fold(services@.take(i as int), om, strict),
        decreases services@.len() - i,
    {
        proof {
            assert(services@.take(i + 1).drop_last() =~= services@.take(i as int));
            assert(services@.take(i + 1).last() == services@[i as int]);
        }
        let s = &services[i];
        let name = match regex_first_capture(SERVICE_NAME_PATTERN, s.content.as_str(), 1) {
            Some(Some(n)) => n,
            _ => s.dir_name.clone(),
        };
        let section = owns_section_of(s.content.as_str());
        let entities = captured(OWNED_ENTITY_PATTERN, section.as_str());
        let ghost ev = crate::gate::string_views(entities@);
        if entities.len() == 0 {
            let mut m = chars_of("services/");
            push_str(&mut m, s.dir_name.as_str());
            push_str(&mut m, "/model.yaml");
            let ghost before = flagged_views(out@);
            out.push(Flagged { error: strict, scope: string_of(&m), message: "missing owns_entities declarations".to_string() });
            proof {
                assert(flagged_views(out@) =~= before.push((strict, model_scope(s.dir_name@), "missing owns_entities declarations"@)));
            }
        } else {
            let ghost base = flagged_views(out@);
            let ghost seen0 = entries_map(export_views(seen@));
            proof {
                reveal_strlit("-service");
            }
            let empty: Vec<char> = Vec::new();
            let short = string_of(&replace_str(&chars_of(name.as_str()), &chars_of("-service"), &empty));
            let mut k: usize = 0;
            while k < entities.len()
                invariant
                    k <= entities@.len(),
                    ev == crate::gate::string_views(entities@),
                    sorted_keys(export_views(ownership@)),
                    om == entries_map(export_views(ownership@)),
                    sorted_keys(export_views(seen@)),
                    short@ == replace_all(name@, "-service"@, Seq::empty()),
                    ({
                        let (f, m) = entities_fold(ev.take(k as int), seen0, name@, om, strict);
                        flagged_views(out@) == base + f && entries_map(export_views(seen@)) == m
                    }),
                decreases entities@.len() - k,
            {
                proof {
                    assert(ev.take(k + 1).drop_last() =~= ev.take(k as int));
                    assert(ev.take(k + 1).last() == entities@[k as int]@);
                }
                let e = entities[k].as_str();
                let ghost before = flagged_views(out@);
                let ghost seen_before = entries_map(export_views(seen@));
                match export_get(&seen, e) {
                    Some(prior) => {
                        if !crate::text::same_chars(&chars_of(prior.as_str()), &chars_of(name.as_str())) {
                            let mut m = chars_of("entity declared by multiple services: ");
                            push_str(&mut m, prior.as_str());
                            push_str(&mut m, " and ");
                            push_str(&mut m, name.as_str());
                            out.push(Flagged { error: true, scope: e.to_string(), message: string_of(&m) });
                        }
                    },
                    None => {
                        insert_export(&mut seen, e.to_string(), name.clone());
                    },
                }
                let ghost mid = flagged_views(out@);
                match export_get(&ownership, e) {
                    None => {
                        let mut m = chars_of("missing platform ownership-map entry for ");
                        push_str(&mut m, name.as_str());
                        out.push(Flagged { error: strict, scope: e.to_string(), message: string_of(&m) });
                    },
                    Some(owner) => {
                        let oc = chars_of(owner.as_str());
                        if !crate::text::same_chars(&oc, &chars_of(name.as_str())) && !crate::text::same_chars(&oc, &chars_of(short.as_str())) {
                            let mut m = chars_of("ownership-map says ");
                            push_str(&mut m, owner.as_str());
                            push_str(&mut m, ", service semantics say ");
                            push_str(&mut m, name.as_str());
                            out.push(Flagged { error: true, scope: e.to_string(), message: string_of(&m) });
                        }
                    },
                }
                proof {
                    let (g, m2) = entity_step(seen_before, e@, name@, om, strict);
                    assert(flagged_views(out@) =~= before + g);
                    assert(entries_map(export_views(seen@)) == m2);
                }
                k = k + 1;
            }
            proof {
                assert(ev.take(entities@.len() as int) =~= ev);
                assert(name@ == service_name(*s));
            }
        }
        i = i + 1;
    }
    assert(services@.take(services@.len() as int) =~= services@);
    out
}

/// Whether the state patterns compile.
pub fn state_patterns_ok() -> (r: bool)
    ensures
        r == state_patterns_compile(),
{
    regex_first_capture(ENTITY_PATTERN, "", 1).is_some() && regex_first_capture(OWNER_PATTERN, "", 1).is_some()
        && regex_first_capture(SERVICE_NAME_PATTERN, "", 1).is_some() && regex_first_capture(OWNED_ENTITY_PATTERN, "", 1).is_some()
}

/// The findings of the state validation (see `state_findings`); `None` where
/// one of the state patterns does not compile.
pub fn check_state(ownership_text: &Option<String>, services: &Vec<ServiceModel>, strict: bool) -> (r: Option<Vec<Flagged>>)
    ensures
        r is Some == state_patterns_compile(),
        r matches Some(v) ==> flagged_views(v@) == state_findings_spec(
            match *ownership_text {
                Some(t) => Some(t@),
                None => None,
            },
            services@,
            strict,
        ),
{
    if state_patterns_ok() {
        Some(state_findings(ownership_text, services, strict))
    } else {
        None
    }
}

// ---------------------------------------------------------------------------
// Workflows
// ---------------------------------------------------------------------------

/// The sections a workflow must have, each with the message for its absence.
pub open spec fn workflow_requirements() -> Seq<(Seq<char>, Seq<char>)> {
    seq![
        ("idempotency_key:"@, "missing top-level idempotency_key"@),
        ("checkpoint_policy:"@, "missing checkpoint_policy"@),
        ("compensation:"@, "missing compensation section"@),
        ("recovery:"@, "missing recovery section"@),
        ("resume_from:"@, "missing recovery resume strategy"@),
        ("operator_intervention_on:"@, "missing operator intervention trigger"@),
    ]
}

/// The name of a step: the first line of its block, trimmed, where that is
/// not empty.
pub open spec fn step_name(block: Seq<char>) -> Seq<char> {
    let ls = lines(block);
    if ls.len() > 0 && trim(ls[0]).len() > 0 {
        trim(ls[0])
    } else {
        "unknown-step"@
    }
}

/// The findings for the missing sections of a workflow.
pub open spec fn section_findings(content: Seq<char>, scope: Seq<char>, reqs: Seq<(Seq<char>, Seq<char>)>, strict: bool) -> Seq<(bool, Seq<char>, Seq<char>)>
    decreases reqs.len(),
{
    if reqs.len() == 0 {
        Seq::empty()
    } else {
        let rest = section_findings(content, scope, reqs.drop_last(), strict);
        if contains(content, reqs.last().0) {
            rest
        } else {
            rest.push((strict, scope, reqs.last().1))
        }
    }
}

/// The findings for one step block.
pub open spec fn step_findings(block: Seq<char>, scope: Seq<char>, strict: bool) -> Seq<(bool, Seq<char>, Seq<char>)> {
    let name = step_name(block);
    let a: Seq<(bool, Seq<char>, Seq<char>)> = if contains(block, "checkpoint: true"@) {
        Seq::empty()
    } else {
        seq![(strict, scope, "step "@ + name + " is missing checkpoint: true"@)]
    };
    let b: Seq<(bool, Seq<char>, Seq<char>)> = if contains(block, "idempotency_key:"@) {
        Seq::empty()
    } else {
        seq![(strict, scope, "step "@ + name + " is missing idempotency_key"@)]
    };
    a + b
}

/// The findings for the step blocks, in order.
pub open spec fn steps_findings(blocks: Seq<Seq<char>>, scope: Seq<char>, strict: bool) -> Seq<(bool, Seq<char>, Seq<char>)>
    decreases blocks.len(),
{
    if blocks.len() == 0 {
        Seq::empty()
    } else {
        steps_findings(blocks.drop_last(), scope, strict) + step_findings(blocks.last(), scope, strict)
    }
}

/// The findings of one workflow definition.
pub open spec fn workflow_findings_spec(content: Seq<char>, scope: Seq<char>, strict: bool) -> Seq<(bool, Seq<char>, Seq<char>)> {
    section_findings(content, scope, workflow_requirements(), strict) + steps_findings(
        split_str(content, "\n- name:"@).skip(1),
        scope,
        strict,
    )
}

/// The name of the step whose block is `block`.
fn step_name_of(block: &[char]) -> (r: Vec<char>)
    ensures
        r@ == step_name(block@),
{
    let ls = split_lines(block);
    if ls.len() > 0 {
        let t = trim_chars(&ls[0]);
        if t.len() > 0 {
            return t;
        }
    }
    chars_of("unknown-step")
}

/// The findings of one workflow definition: each required section that is
/// missing, then, for each step (a block after `\n- name:`), a missing
/// `checkpoint: true` and a missing `idempotency_key:`.
pub fn workflow_findings(content: &str, scope: &str, strict: bool) -> (r: Vec<Flagged>)
    ensures
        flagged_views(r@) == workflow_findings_spec(content@, scope@, strict),
{
    let c = chars_of(content);
    let reqs: [(&str, &str); 6] = [
        ("idempotency_key:", "missing top-level idempotency_key"),
        ("checkpoint_policy:", "missing checkpoint_policy"),
        ("compensation:", "missing compensation section"),
        ("recovery:", "missing recovery section"),
        ("resume_from:", "missing recovery resume strategy"),
        ("operator_intervention_on:", "missing operator intervention trigger"),
    ];
    let ghost rv = reqs@.map_values(|e: (&str, &str)| (e.0@, e.1@));
    assert(rv =~= workflow_requirements());
    let mut out: Vec<Flagged> = Vec::new();
    let mut i: usize = 0;
    while i < 6
        invariant
            i <= 6,
            c@ == content@,
            rv == reqs@.map_values(|e: (&str, &str)| (e.0@, e.1@)),
            reqs@.len() == 6,
            flagged_views(out@) == section_findings(content@, scope@, rv.take(i as int), strict),
        decreases 6 - i,
    {
        proof {
            assert(rv.take(i + 1).drop_last() =~= rv.take(i as int));
            assert(rv.take(i + 1).last() == rv[i as int]);
        }
        let (snippet, message) = reqs[i];
        if !contains_chars(&c, &chars_of(snippet)) {
            let ghost before = flagged_views(out@);
            out.push(crate::report::flag(strict, scope, message));
            proof {
                assert(flagged_views(out@) =~= before.push((strict, scope@, message@)));
            }
        }
        i = i + 1;
    }
    assert(rv.take(6) =~= rv);
    proof {
        reveal_strlit("\n- name:");
    }
    let blocks = split_on_str(&c, &chars_of("\n- name:"));
    let ghost bv = blocks@.map_values(|x: Vec<char>| x@);
    let ghost tail = bv.skip(1);
    let ghost base = flagged_views(out@);
    let mut k: usize = 1;
    assert(tail.take(0) =~= Seq::<Seq<char>>::empty());
    while k < blocks.len()
        invariant
            1 <= k <= blocks@.len(),
            bv == blocks@.map_values(|x: Vec<char>| x@),
            tail == bv.skip(1),
            flagged_views(out@) == base + steps_findings(tail.take(k - 1), scope@, strict),
        decreases blocks@.len() - k,
    {
        proof {
            assert(tail.take(k as int).drop_last() =~= tail.take(k - 1));
            assert(tail.take(k as int).last() == blocks@[k as int]@);
        }
        let block = &blocks[k];
        let name = step_name_of(block);
        let ghost before = flagged_views(out@);
        if !contains_chars(block, &chars_of("checkpoint: true")) {
            let mut m = chars_of("step ");
            crate::text::push_chars(&mut m, &name);
            push_str(&mut m, " is missing checkpoint: true");
            out.push(Flagged { error: strict, scope: scope.to_string(), message: string_of(&m) });
        }
        if !contains_chars(block, &chars_of("idempotency_key:")) {
            let mut m = chars_of("step ");
            crate::text::push_chars(&mut m, &name);
            push_str(&mut m, " is missing idempotency_key");
            out.push(Flagged { error: strict, scope: scope.to_string(), message: string_of(&m) });
        }
        proof {
            assert(flagged_views(out@) =~= before + step_findings(block@, scope@, strict));
        }
        k = k + 1;
    }
    proof {
        assert(bv.len() >= 1);
        assert(tail.take(blocks@.len() - 1) =~= tail);
    }
    out
}


// ---------------------------------------------------------------------------
// Mode
// ---------------------------------------------------------------------------

proof fn lemma_section_findings_escalates(content: Seq<char>, scope: Seq<char>, reqs: Seq<(Seq<char>, Seq<char>)>)
    ensures
        escalates(section_findings(content, scope, reqs, false), section_findings(content, scope, reqs, true)),
    decreases reqs.len(),
{
    if reqs.len() == 0 {
        lemma_escalates_refl(Seq::empty());
    } else {
        lemma_section_findings_escalates(content, scope, reqs.drop_last());
        if !contains(content, reqs.last().0) {
            lemma_escalates_push(
                section_findings(content, scope, reqs.drop_last(), false),
                section_findings(content, scope, reqs.drop_last(), true),
                (false, scope, reqs.last().1),
                (true, scope, reqs.last().1),
            );
        }
    }
}

proof fn lemma_steps_findings_escalates(blocks: Seq<Seq<char>>, scope: Seq<char>)
    ensures
        escalates(steps_findings(blocks, scope, false), steps_findings(blocks, scope, true)),
    decreases blocks.len(),
{
    if blocks.len() == 0 {
        lemma_escalates_refl(Seq::empty());
    } else {
        lemma_steps_findings_escalates(blocks.drop_last(), scope);
        let b = blocks.last();
        let name = step_name(b);
        let m1 = "step "@ + name + " is missing checkpoint: true"@;
        let m2 = "step "@ + name + " is missing idempotency_key"@;
        lemma_escalates_single((false, scope, m1), (true, scope, m1));
        lemma_escalates_single((false, scope, m2), (true, scope, m2));
        let a0: Seq<(bool, Seq<char>, Seq<char>)> = if contains(b, "checkpoint: true"@) { Seq::empty() } else { seq![(false, scope, m1)] };
        let a1: Seq<(bool, Seq<char>, Seq<char>)> = if contains(b, "checkpoint: true"@) { Seq::empty() } else { seq![(true, scope, m1)] };
        let b0: Seq<(bool, Seq<char>, Seq<char>)> = if contains(b, "idempotency_key:"@) { Seq::empty() } else { seq![(false, scope, m2)] };
        let b1: Seq<(bool, Seq<char>, Seq<char>)> = if contains(b, "idempotency_key:"@) { Seq::empty() } else { seq![(true, scope, m2)] };
        lemma_escalates_concat(a0, b0, a1, b1);
        assert(step_findings(b, scope, false) == a0 + b0);
        assert(step_findings(b, scope, true) == a1 + b1);
        lemma_escalates_concat(
            steps_findings(blocks.drop_last(), scope, false),
            step_findings(b, scope, false),
            steps_findings(blocks.drop_last(), scope, true),
            step_findings(b, scope, true),
        );
    }
}

/// The mode only sets severities: strict mode reports the same workflow
/// findings as warn mode, in the same order, with warnings raised to errors.
pub proof fn law_workflow_strict_escalates(content: Seq<char>, scope: Seq<char>)
    ensures
        escalates(workflow_findings_spec(content, scope, false), workflow_findings_spec(content, scope, true)),
{
    let blocks = split_str(content, "\n- name:"@).skip(1);
    lemma_section_findings_escalates(content, scope, workflow_requirements());
    lemma_steps_findings_escalates(blocks, scope);
    lemma_escalates_concat(
        section_findings(content, scope, workflow_requirements(), false),
        steps_findings(blocks, scope, false),
        section_findings(content, scope, workflow_requirements(), true),
        steps_findings(blocks, scope, true),
    );
}

proof fn lemma_entities_fold_escalates(
    entities: Seq<Seq<char>>,
    seen: Map<Seq<char>, Seq<char>>,
    service: Seq<char>,
    ownership: Map<Seq<char>, Seq<char>>,
)
    ensures
        entities_fold(entities, seen, service, ownership, false).1 == entities_fold(entities, seen, service, ownership, true).1,
        escalates(entities_fold(entities, seen, service, ownership, false).0, entities_fold(entities, seen, service, ownership, true).0),
    decreases entities.len(),
{
    if entities.len() == 0 {
        lemma_escalates_refl(Seq::empty());
    } else {
        lemma_entities_fold_escalates(entities.drop_last(), seen, service, ownership);
        let m = entities_fold(entities.drop_last(), seen, service, ownership, false).1;
        let e = entities.last();
        lemma_escalates_single((false, e, missing_owner_message(service)), (true, e, missing_owner_message(service)));
        let x = entity_step(m, e, service, ownership, false);
        let y = entity_step(m, e, service, ownership, true);
        let a: Seq<(bool, Seq<char>, Seq<char>)> = if m.dom().contains(e) && m[e] != service {
            seq![(true, e, multiple_owners_message(m[e], service))]
        } else {
            Seq::empty()
        };
        lemma_escalates_refl(a);
        let b0: Seq<(bool, Seq<char>, Seq<char>)> = if !ownership.dom().contains(e) {
            seq![(false, e, missing_owner_message(service))]
        } else if ownership[e] != service && ownership[e] != replace_all(service, "-service"@, Seq::empty()) {
            seq![(true, e, owner_mismatch_message(ownership[e], service))]
        } else {
            Seq::empty()
        };
        let b1: Seq<(bool, Seq<char>, Seq<char>)> = if !ownership.dom().contains(e) {
            seq![(true, e, missing_owner_message(service))]
        } else if ownership[e] != service && ownership[e] != replace_all(service, "-service"@, Seq::empty()) {
            seq![(true, e, owner_mismatch_message(ownership[e], service))]
        } else {
            Seq::empty()
        };
        lemma_escalates_refl(b1);
        lemma_escalates_concat(a, b0, a, b1);
        assert(x.0 == a + b0);
        assert(y.0 == a + b1);
        lemma_escalates_concat(
            entities_fold(entities.drop_last(), seen, service, ownership, false).0,
            x.0,
            entities_fold(entities.drop_last(), seen, service, ownership, true).0,
            y.0,
        );
    }
}

proof fn lemma_services_fold_escalates(services: Seq<ServiceModel>, ownership: Map<Seq<char>, Seq<char>>)
    ensures
        services_fold(services, ownership, false).1 == services_fold(services, ownership, true).1,
        escalates(services_fold(services, ownership, false).0, services_fold(services, ownership, true).0),
    decreases services.len(),
{
    if services.len() == 0 {
        lemma_escalates_refl(Seq::empty());
    } else {
        lemma_services_fold_escalates(services.drop_last(), ownership);
        let s = services.last();
        let f0 = services_fold(services.drop_last(), ownership, false).0;
        let f1 = services_fold(services.drop_last(), ownership, true).0;
        let m = services_fold(services.drop_last(), ownership, false).1;
        let entities = owned_entities(s.content@);
        if entities.len() == 0 {
            let msg = "missing owns_entities declarations"@;
            lemma_escalates_push(f0, f1, (false, model_scope(s.dir_name@), msg), (true, model_scope(s.dir_name@), msg));
        } else {
            lemma_entities_fold_escalates(entities, m, service_name(s), ownership);
            lemma_escalates_concat(
                f0,
                entities_fold(entities, m, service_name(s), ownership, false).0,
                f1,
                entities_fold(entities, m, service_name(s), ownership, true).0,
            );
        }
    }
}

/// The mode only sets severities: strict mode reports the same state
/// findings as warn mode, in the same order, with missing declarations and
/// missing ownership entries raised to errors.
pub proof fn law_state_strict_escalates(ownership_text: Option<Seq<char>>, services: Seq<ServiceModel>)
    ensures
        escalates(state_findings_spec(ownership_text, services, false), state_findings_spec(ownership_text, services, true)),
{
    let ownership = match ownership_text {
        Some(t) => ownership_map_spec(t),
        None => Map::empty(),
    };
    lemma_services_fold_escalates(services, ownership);
}

} // verus!
