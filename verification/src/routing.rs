//! Task routing between subagents: which agent owns a touched path, the
//! order in which affected agents are dispatched, which gate rules concern an
//! agent, and whether a handoff stays inside the agent's write boundaries.
use vstd::prelude::*;

use crate::gate::string_views;
use crate::pattern::{pattern_match, pattern_matches};
use crate::sorting::{sort_dedup, strictly_sorted, views};
use crate::text::{chars_of, contains, contains_chars, has_prefix, push_str, same_chars, starts_with, string_of};

verus! {

/// A routing rule: paths matching `pattern` belong to the agent `primary`.
#[derive(Debug, Clone)]
pub struct RoutingRule {
    pub pattern: String,
    pub primary: String,
}

/// Rules as plain values.
pub open spec fn rule_views(rules: Seq<RoutingRule>) -> Seq<(Seq<char>, Seq<char>)> {
    rules.map_values(|r: RoutingRule| (r.pattern@, r.primary@))
}

/// The agent of the first rule whose pattern matches `path`.
pub open spec fn first_match(path: Seq<char>, rules: Seq<(Seq<char>, Seq<char>)>) -> Option<Seq<char>>
    decreases rules.len(),
{
    if rules.len() == 0 {
        None
    } else if pattern_match(path, rules[0].0) {
        Some(rules[0].1)
    } else {
        first_match(path, rules.drop_first())
    }
}

/// The paths, in order, whose first matching rule names `agent`.
pub open spec fn paths_for(paths: Seq<Seq<char>>, rules: Seq<(Seq<char>, Seq<char>)>, agent: Seq<char>) -> Seq<
    Seq<char>,
>
    decreases paths.len(),
{
    if paths.len() == 0 {
        Seq::empty()
    } else {
        let rest = paths_for(paths.drop_last(), rules, agent);
        if first_match(paths.last(), rules) == Some(agent) {
            rest.push(paths.last())
        } else {
            rest
        }
    }
}

/// The pseudo-agent that closes every dispatch.
pub open spec fn verify_step() -> Seq<char> {
    "(verify)"@
}

/// The agents of the dispatch order that have paths, in that order (the
/// closing `(verify)` left out).
pub open spec fn affected(order: Seq<Seq<char>>, paths: Seq<Seq<char>>, rules: Seq<(Seq<char>, Seq<char>)>) -> Seq<
    Seq<char>,
>
    decreases order.len(),
{
    if order.len() == 0 {
        Seq::empty()
    } else {
        let rest = affected(order.drop_last(), paths, rules);
        let a = order.last();
        if a != verify_step() && paths_for(paths, rules, a).len() > 0 {
            rest.push(a)
        } else {
            rest
        }
    }
}

/// The full dispatch: `planner` first when it has paths, then the affected
/// agents, then `(verify)`.
pub open spec fn dispatch_spec(order: Seq<Seq<char>>, paths: Seq<Seq<char>>, rules: Seq<(Seq<char>, Seq<char>)>) -> Seq<
    Seq<char>,
> {
    let head: Seq<Seq<char>> = if paths_for(paths, rules, "planner"@).len() > 0 {
        seq!["planner"@]
    } else {
        Seq::empty()
    };
    head + affected(order, paths, rules) + seq![verify_step()]
}

/// Whether some path has a rule.
pub open spec fn any_routed(paths: Seq<Seq<char>>, rules: Seq<(Seq<char>, Seq<char>)>) -> bool {
    exists|i: int| 0 <= i < paths.len() && (#[trigger] first_match(paths[i], rules)) is Some
}

proof fn lemma_first_match_skip(path: Seq<char>, rules: Seq<(Seq<char>, Seq<char>)>, i: int)
    requires
        0 <= i < rules.len(),
    ensures
        first_match(path, rules.skip(i)) == if pattern_match(path, rules[i].0) {
            Some(rules[i].1)
        } else {
            first_match(path, rules.skip(i + 1))
        },
{
    assert(rules.skip(i).drop_first() =~= rules.skip(i + 1));
    assert(rules.skip(i)[0] == rules[i]);
}

/// The agent that owns `path`: that of the first rule matching it.
pub fn agent_for(path: &str, rules: &Vec<RoutingRule>) -> (r: Option<String>)
    ensures
        match r {
            Some(a) => first_match(path@, rule_views(rules@)) == Some(a@),
            None => first_match(path@, rule_views(rules@)) is None,
        },
{
    let ghost rv = rule_views(rules@);
    let mut i: usize = 0;
    assert(rv.skip(0) =~= rv);
    while i < rules.len()
        invariant
            i <= rules@.len(),
            rv == rule_views(rules@),
            first_match(path@, rv.skip(i as int)) == first_match(path@, rv),
        decreases rules@.len() - i,
    {
        proof {
            lemma_first_match_skip(path@, rv, i as int);
        }
        if pattern_matches(path, rules[i].pattern.as_str()) {
            return Some(rules[i].primary.clone());
        }
        i = i + 1;
    }
    assert(rv.skip(i as int).len() == 0);
    None
}

/// Optional string as plain value.
pub open spec fn opt_view(o: Option<String>) -> Option<Seq<char>> {
    match o {
        Some(s) => Some(s@),
        None => None,
    }
}

/// The owner of each path, in order.
fn owners(paths: &Vec<String>, rules: &Vec<RoutingRule>) -> (r: Vec<Option<String>>)
    ensures
        r@.len() == paths@.len(),
        forall|i: int| 0 <= i < paths@.len() ==> opt_view(#[trigger] r@[i]) == first_match(
            paths@[i]@,
            rule_views(rules@),
        ),
{
    let mut r: Vec<Option<String>> = Vec::new();
    let mut i: usize = 0;
    while i < paths.len()
        invariant
            i <= paths@.len(),
            r@.len() == i,
            forall|j: int| 0 <= j < i ==> opt_view(#[trigger] r@[j]) == first_match(
                paths@[j]@,
                rule_views(rules@),
            ),
        decreases paths@.len() - i,
    {
        r.push(agent_for(paths[i].as_str(), rules));
        i = i + 1;
    }
    r
}

/// The paths owned by `agent`, given each path's owner.
fn owned_by(paths: &Vec<String>, owner: &Vec<Option<String>>, agent: &str, Ghost(rules): Ghost<
    Seq<(Seq<char>, Seq<char>)>,
>) -> (r: Vec<String>)
    requires
        owner@.len() == paths@.len(),
        forall|i: int| 0 <= i < paths@.len() ==> opt_view(#[trigger] owner@[i]) == first_match(
            paths@[i]@,
            rules,
        ),
    ensures
        string_views(r@) == paths_for(string_views(paths@), rules, agent@),
{
    let a = chars_of(agent);
    let mut r: Vec<String> = Vec::new();
    let mut i: usize = 0;
    while i < paths.len()
        invariant
            i <= paths@.len(),
            owner@.len() == paths@.len(),
            a@ == agent@,
            forall|j: int| 0 <= j < paths@.len() ==> opt_view(#[trigger] owner@[j]) == first_match(
                paths@[j]@,
                rules,
            ),
            string_views(r@) == paths_for(string_views(paths@.take(i as int)), rules, agent@),
        decreases paths@.len() - i,
    {
        proof {
            assert(string_views(paths@.take(i + 1)).drop_last() =~= string_views(paths@.take(i as int)));
            assert(string_views(paths@.take(i + 1)).last() == paths@[i as int]@);
            assert(opt_view(owner@[i as int]) == first_match(paths@[i as int]@, rules));
        }
        let hit = match &owner[i] {
            Some(o) => same_chars(&chars_of(o.as_str()), &a),
            None => false,
        };
        if hit {
            r.push(paths[i].clone());
            proof {
                assert(string_views(r@) =~= string_views(r@.drop_last()).push(paths@[i as int]@));
            }
        }
        i = i + 1;
    }
    assert(paths@.take(paths@.len() as int) =~= paths@);
    r
}

/// The routing of touched paths to agents.
#[derive(Debug, Clone)]
pub struct RoutePlan {
    /// Whether any path belongs to an agent.
    pub routed: bool,
    /// Paths that belong to the planner.
    pub planner_paths: Vec<String>,
    /// The affected agents in dispatch order, each with its paths.
    pub affected: Vec<(String, Vec<String>)>,
    /// The dispatch: planner (if it has paths), affected agents, `(verify)`.
    pub dispatch: Vec<String>,
}

/// Routes the touched paths: each goes to the agent of its first matching
/// rule; affected agents follow the dispatch order.
pub fn route_paths(paths: &Vec<String>, rules: &Vec<RoutingRule>, order: &Vec<String>) -> (r: RoutePlan)
    ensures
        r.routed == any_routed(string_views(paths@), rule_views(rules@)),
        string_views(r.planner_paths@) == paths_for(string_views(paths@), rule_views(rules@), "planner"@),
        r.affected@.map_values(|e: (String, Vec<String>)| e.0@) == affected(
            string_views(order@),
            string_views(paths@),
            rule_views(rules@),
        ),
        forall|i: int| 0 <= i < r.affected@.len() ==> string_views(#[trigger] r.affected@[i].1@)
            == paths_for(string_views(paths@), rule_views(rules@), r.affected@[i].0@),
        string_views(r.dispatch@) == dispatch_spec(
            string_views(order@),
            string_views(paths@),
            rule_views(rules@),
        ),
{
    let ghost rv = rule_views(rules@);
    let ghost pv = string_views(paths@);
    let owner = owners(paths, rules);
    let mut routed = false;
    let mut k: usize = 0;
    while k < owner.len()
        invariant
            k <= owner@.len(),
            owner@.len() == paths@.len(),
            pv == string_views(paths@),
            forall|j: int| 0 <= j < paths@.len() ==> opt_view(#[trigger] owner@[j]) == first_match(
                paths@[j]@,
                rv,
            ),
            routed == exists|j: int| 0 <= j < k && (#[trigger] first_match(pv[j], rv)) is Some,
        decreases owner@.len() - k,
    {
        proof {
            assert(pv[k as int] == paths@[k as int]@);
            assert(opt_view(owner@[k as int]) == first_match(paths@[k as int]@, rv));
        }
        if owner[k].is_some() {
            routed = true;
        }
        k = k + 1;
    }
    let planner_paths = owned_by(paths, &owner, "planner", Ghost(rv));
    let verify = chars_of("(verify)");
    let mut affected_list: Vec<(String, Vec<String>)> = Vec::new();
    let mut i: usize = 0;
    while i < order.len()
        invariant
            i <= order@.len(),
            owner@.len() == paths@.len(),
            verify@ == verify_step(),
            forall|j: int| 0 <= j < paths@.len() ==> opt_view(#[trigger] owner@[j]) == first_match(
                paths@[j]@,
                rv,
            ),
            affected_list@.map_values(|e: (String, Vec<String>)| e.0@) == affected(
                string_views(order@.take(i as int)),
                pv,
                rv,
            ),
            forall|j: int| 0 <= j < affected_list@.len() ==> string_views(
                #[trigger] affected_list@[j].1@,
            ) == paths_for(pv, rv, affected_list@[j].0@),
            pv == string_views(paths@),
        decreases order@.len() - i,
    {
        let ghost before = affected_list@;
        proof {
            assert(string_views(order@.take(i + 1)).drop_last() =~= string_views(order@.take(i as int)));
            assert(string_views(order@.take(i + 1)).last() == order@[i as int]@);
        }
        let agent = order[i].as_str();
        let is_verify = same_chars(&chars_of(agent), &verify);
        if !is_verify {
            let owned = owned_by(paths, &owner, agent, Ghost(rv));
            if owned.len() > 0 {
                affected_list.push((order[i].clone(), owned));
                proof {
                    assert(affected_list@.map_values(|e: (String, Vec<String>)| e.0@) =~= before.map_values(
                        |e: (String, Vec<String>)| e.0@,
                    ).push(order@[i as int]@));
                }
            }
        }
        i = i + 1;
    }
    assert(order@.take(order@.len() as int) =~= order@);
    let mut dispatch: Vec<String> = Vec::new();
    if planner_paths.len() > 0 {
        dispatch.push("planner".to_string());
    }
    let ghost head = string_views(dispatch@);
    let mut j: usize = 0;
    while j < affected_list.len()
        invariant
            j <= affected_list@.len(),
            string_views(dispatch@) == head + affected_list@.map_values(
                |e: (String, Vec<String>)| e.0@,
            ).take(j as int),
        decreases affected_list@.len() - j,
    {
        let ghost before = string_views(dispatch@);
        dispatch.push(affected_list[j].0.clone());
        proof {
            let m = affected_list@.map_values(|e: (String, Vec<String>)| e.0@);
            assert(m[j as int] == affected_list@[j as int].0@);
            assert(string_views(dispatch@) =~= before.push(affected_list@[j as int].0@));
            assert(string_views(dispatch@) =~= head + m.take(j + 1));
        }
        j = j + 1;
    }
    let ghost before = string_views(dispatch@);
    dispatch.push("(verify)".to_string());
    proof {
        let m = affected_list@.map_values(|e: (String, Vec<String>)| e.0@);
        assert(m.take(m.len() as int) =~= m);
        assert(before == head + m);
        assert(string_views(dispatch@) =~= before.push(verify_step()));
        let hs: Seq<Seq<char>> = if paths_for(pv, rv, "planner"@).len() > 0 {
            seq!["planner"@]
        } else {
            Seq::empty()
        };
        assert(head =~= hs);
        assert(string_views(dispatch@) =~= hs + affected(string_views(order@), pv, rv) + seq![verify_step()]);
    }
    RoutePlan { routed, planner_paths, affected: affected_list, dispatch }
}

// ---------------------------------------------------------------------------
// Gate guidance
// ---------------------------------------------------------------------------

/// The agents named by routing rules, other than the planner.
pub open spec fn legacy_agent_set(rules: Seq<RoutingRule>) -> Set<Seq<char>> {
    Set::new(
        |a: Seq<char>| exists|i: int| 0 <= i < rules.len() && #[trigger] rules[i].primary@ == a && a
            != "planner"@,
    )
}

/// The agents that gate guidance accepts: those of the routing rules other
/// than the planner, sorted and without duplicates.
pub fn legacy_agents(rules: &Vec<RoutingRule>) -> (r: Vec<String>)
    ensures
        strictly_sorted(string_views(r@)),
        string_views(r@).to_set() == legacy_agent_set(rules@),
{
    let planner = chars_of("planner");
    let mut names: Vec<Vec<char>> = Vec::new();
    let mut i: usize = 0;
    while i < rules.len()
        invariant
            i <= rules@.len(),
            planner@ == "planner"@,
            forall|x: Seq<char>| views(names@).contains(x) <==> (exists|j: int|
                0 <= j < i && #[trigger] rules@[j].primary@ == x && x != "planner"@),
        decreases rules@.len() - i,
    {
        let a = chars_of(rules[i].primary.as_str());
        if !same_chars(&a, &planner) {
            let ghost old_names = names@;
            names.push(a);
            proof {
                assert(views(names@) =~= views(old_names).push(rules@[i as int].primary@));
                assert(rules@[i as int].primary@ != "planner"@);
                assert forall|x: Seq<char>| views(names@).contains(x) <==> (exists|j: int|
                    0 <= j < i + 1 && #[trigger] rules@[j].primary@ == x && x != "planner"@) by {
                    if views(names@).contains(x) {
                        if x == rules@[i as int].primary@ {
                            assert(rules@[i as int].primary@ == x);
                        } else {
                            let k = choose|k: int| 0 <= k < views(names@).len() && views(names@)[k] == x;
                            assert(k < views(old_names).len());
                            assert(views(old_names)[k] == x);
                            assert(views(old_names).contains(x));
                            let j = choose|j: int| 0 <= j < i && #[trigger] rules@[j].primary@ == x && x != "planner"@;
                            assert(rules@[j].primary@ == x);
                        }
                    }
                    if exists|j: int| 0 <= j < i + 1 && #[trigger] rules@[j].primary@ == x && x
                        != "planner"@ {
                        let j = choose|j: int|
                            0 <= j < i + 1 && #[trigger] rules@[j].primary@ == x && x != "planner"@;
                        if j < i {
                            assert(rules@[j].primary@ == x);
                            assert(views(old_names).contains(x));
                            let k = choose|k: int| 0 <= k < views(old_names).len() && views(old_names)[k] == x;
                            assert(views(names@)[k] == x);
                        } else {
                            assert(views(names@)[views(names@).len() - 1] == x);
                        }
                    }
                }
            }
        } else {
            proof {
                assert forall|x: Seq<char>| views(names@).contains(x) <==> (exists|j: int|
                    0 <= j < i + 1 && #[trigger] rules@[j].primary@ == x && x != "planner"@) by {
                    if exists|j: int| 0 <= j < i + 1 && #[trigger] rules@[j].primary@ == x && x
                        != "planner"@ {
                        let j = choose|j: int|
                            0 <= j < i + 1 && #[trigger] rules@[j].primary@ == x && x != "planner"@;
                        assert(j < i);
                    }
                }
            }
        }
        i = i + 1;
    }
    let sorted = sort_dedup(names);
    let mut r: Vec<String> = Vec::new();
    let mut k: usize = 0;
    while k < sorted.len()
        invariant
            k <= sorted@.len(),
            string_views(r@) == views(sorted@).take(k as int),
        decreases sorted@.len() - k,
    {
        r.push(string_of(&sorted[k]));
        proof {
            assert(views(sorted@).take(k + 1) =~= views(sorted@).take(k as int).push(sorted@[k as int]@));
            assert(string_views(r@) =~= string_views(r@.drop_last()).push(r@.last()@));
        }
        k = k + 1;
    }
    proof {
        assert(views(sorted@).take(sorted@.len() as int) =~= views(sorted@));
        assert(views(sorted@).to_set() =~= legacy_agent_set(rules@));
    }
    r
}

/// The patterns of the rules owned by `agent`, in order.
pub open spec fn agent_patterns_spec(rules: Seq<RoutingRule>, agent: Seq<char>) -> Seq<Seq<char>>
    decreases rules.len(),
{
    if rules.len() == 0 {
        Seq::empty()
    } else {
        let rest = agent_patterns_spec(rules.drop_last(), agent);
        if rules.last().primary@ == agent {
            rest.push(rules.last().pattern@)
        } else {
            rest
        }
    }
}

/// The patterns of the rules owned by `agent`.
pub fn agent_patterns(rules: &Vec<RoutingRule>, agent: &str) -> (r: Vec<String>)
    ensures
        string_views(r@) == agent_patterns_spec(rules@, agent@),
{
    let a = chars_of(agent);
    let mut r: Vec<String> = Vec::new();
    let mut i: usize = 0;
    while i < rules.len()
        invariant
            i <= rules@.len(),
            a@ == agent@,
            string_views(r@) == agent_patterns_spec(rules@.take(i as int), agent@),
        decreases rules@.len() - i,
    {
        proof {
            assert(rules@.take(i + 1).drop_last() =~= rules@.take(i as int));
        }
        if same_chars(&chars_of(rules[i].primary.as_str()), &a) {
            r.push(rules[i].pattern.clone());
            proof {
                assert(string_views(r@) =~= string_views(r@.drop_last()).push(r@.last()@));
            }
        }
        i = i + 1;
    }
    assert(rules@.take(rules@.len() as int) =~= rules@);
    r
}

/// Two patterns overlap when either matches the other.
pub open spec fn overlaps(p: Seq<char>, q: Seq<char>) -> bool {
    pattern_match(p, q) || pattern_match(q, p)
}

/// A gate path rule concerns the agent when one of its patterns overlaps one
/// of the agent's patterns.
pub open spec fn rule_concerns(rule: Seq<Seq<char>>, agent: Seq<Seq<char>>) -> bool {
    exists|i: int, j: int| 0 <= i < rule.len() && 0 <= j < agent.len() && overlaps(
        #[trigger] rule[i],
        #[trigger] agent[j],
    )
}

/// How many of the rules concern the agent.
pub open spec fn concerning_count(rules: Seq<Seq<Seq<char>>>, agent: Seq<Seq<char>>) -> nat
    decreases rules.len(),
{
    if rules.len() == 0 {
        0
    } else {
        concerning_count(rules.drop_last(), agent) + if rule_concerns(rules.last(), agent) {
            1nat
        } else {
            0nat
        }
    }
}

/// Whether one rule's patterns overlap one of the agent's patterns.
fn concerns(rule: &Vec<String>, agent: &Vec<String>) -> (r: bool)
    ensures
        r == rule_concerns(string_views(rule@), string_views(agent@)),
{
    let mut i: usize = 0;
    while i < rule.len()
        invariant
            i <= rule@.len(),
            forall|a: int, b: int| 0 <= a < i && 0 <= b < agent@.len() ==> !overlaps(
                #[trigger] string_views(rule@)[a],
                #[trigger] string_views(agent@)[b],
            ),
        decreases rule@.len() - i,
    {
        let mut j: usize = 0;
        while j < agent.len()
            invariant
                i < rule@.len(),
                j <= agent@.len(),
                forall|a: int, b: int| 0 <= a < i && 0 <= b < agent@.len() ==> !overlaps(
                    #[trigger] string_views(rule@)[a],
                    #[trigger] string_views(agent@)[b],
                ),
                forall|b: int| 0 <= b < j ==> !overlaps(
                    string_views(rule@)[i as int],
                    #[trigger] string_views(agent@)[b],
                ),
            decreases agent@.len() - j,
        {
            let p = rule[i].as_str();
            let q = agent[j].as_str();
            if pattern_matches(p, q) || pattern_matches(q, p) {
                proof {
                    assert(overlaps(string_views(rule@)[i as int], string_views(agent@)[j as int]));
                }
                return true;
            }
            j = j + 1;
        }
        i = i + 1;
    }
    false
}

/// How many gate path rules (each a list of patterns) concern an agent with
/// the given routing patterns.
pub fn relevant_rule_count(rules: &Vec<Vec<String>>, agent: &Vec<String>) -> (n: usize)
    ensures
        n == concerning_count(rules@.map_values(|r: Vec<String>| string_views(r@)), string_views(agent@)),
{
    let ghost rv = rules@.map_values(|r: Vec<String>| string_views(r@));
    let mut n: usize = 0;
    let mut i: usize = 0;
    while i < rules.len()
        invariant
            i <= rules@.len(),
            rv == rules@.map_values(|r: Vec<String>| string_views(r@)),
            n == concerning_count(rv.take(i as int), string_views(agent@)),
            n <= i,
        decreases rules@.len() - i,
    {
        proof {
            assert(rv.take(i + 1).drop_last() =~= rv.take(i as int));
        }
        if concerns(&rules[i], agent) {
            n = n + 1;
        }
        i = i + 1;
    }
    assert(rv.take(rules@.len() as int) =~= rv);
    n
}

// ---------------------------------------------------------------------------
// Handoff boundaries
// ---------------------------------------------------------------------------

/// A path lies in a boundary when it starts with it or contains it after a
/// `/`.
pub open spec fn in_boundary(path: Seq<char>, boundary: Seq<char>) -> bool {
    has_prefix(path, boundary) || contains(path, seq!['/'] + boundary)
}

/// Whether `path` lies in `boundary`.
pub fn path_matches_boundary(path: &str, boundary: &str) -> (r: bool)
    ensures
        r == in_boundary(path@, boundary@),
{
    let p = chars_of(path);
    let b = chars_of(boundary);
    if starts_with(&p, &b) {
        return true;
    }
    let mut slash_b: Vec<char> = Vec::new();
    slash_b.push('/');
    push_str(&mut slash_b, boundary);
    assert(slash_b@ =~= seq!['/'] + boundary@);
    contains_chars(&p, &slash_b)
}

/// A path may be handed off when it lies in a writable boundary or in no
/// read-only one.
pub open spec fn may_modify(path: Seq<char>, writable: Seq<Seq<char>>, readonly: Seq<Seq<char>>) -> bool {
    (exists|i: int| 0 <= i < writable.len() && in_boundary(path, #[trigger] writable[i])) || !(exists|
        i: int,
    | 0 <= i < readonly.len() && in_boundary(path, #[trigger] readonly[i]))
}

/// The message for a path outside the agent's boundaries.
pub open spec fn violation_line(path: Seq<char>) -> Seq<char> {
    path + " (read-only - generated or owned by another agent)"@
}

/// The handed-off paths that are allowed, in order.
pub open spec fn valid_paths(paths: Seq<Seq<char>>, writable: Seq<Seq<char>>, readonly: Seq<Seq<char>>) -> Seq<
    Seq<char>,
>
    decreases paths.len(),
{
    if paths.len() == 0 {
        Seq::empty()
    } else {
        let rest = valid_paths(paths.drop_last(), writable, readonly);
        if may_modify(paths.last(), writable, readonly) {
            rest.push(paths.last())
        } else {
            rest
        }
    }
}

/// The violation messages of the handed-off paths that are not allowed.
pub open spec fn violations(paths: Seq<Seq<char>>, writable: Seq<Seq<char>>, readonly: Seq<Seq<char>>) -> Seq<
    Seq<char>,
>
    decreases paths.len(),
{
    if paths.len() == 0 {
        Seq::empty()
    } else {
        let rest = violations(paths.drop_last(), writable, readonly);
        if may_modify(paths.last(), writable, readonly) {
            rest
        } else {
            rest.push(violation_line(paths.last()))
        }
    }
}

/// Whether `path` lies in one of the boundaries.
fn in_any(path: &str, boundaries: &Vec<String>) -> (r: bool)
    ensures
        r == exists|i: int| 0 <= i < boundaries@.len() && in_boundary(path@, #[trigger] string_views(boundaries@)[i]),
{
    let mut i: usize = 0;
    while i < boundaries.len()
        invariant
            i <= boundaries@.len(),
            forall|j: int| 0 <= j < i ==> !in_boundary(path@, #[trigger] string_views(boundaries@)[j]),
        decreases boundaries@.len() - i,
    {
        if path_matches_boundary(path, boundaries[i].as_str()) {
            assert(in_boundary(path@, string_views(boundaries@)[i as int]));
            return true;
        }
        i = i + 1;
    }
    false
}

/// A handoff checked against an agent's boundaries.
#[derive(Debug, Clone)]
pub struct HandoffCheck {
    pub valid: Vec<String>,
    pub violations: Vec<String>,
}

/// Splits the modified paths into those the agent may hand off and the
/// violations of its read-only boundaries.
pub fn check_handoff(paths: &Vec<String>, writable: &Vec<String>, readonly: &Vec<String>) -> (r: HandoffCheck)
    ensures
        string_views(r.valid@) == valid_paths(string_views(paths@), string_views(writable@), string_views(readonly@)),
        string_views(r.violations@) == violations(string_views(paths@), string_views(writable@), string_views(readonly@)),
{
    let ghost w = string_views(writable@);
    let ghost ro = string_views(readonly@);
    let mut valid: Vec<String> = Vec::new();
    let mut bad: Vec<String> = Vec::new();
    let mut i: usize = 0;
    while i < paths.len()
        invariant
            i <= paths@.len(),
            w == string_views(writable@),
            ro == string_views(readonly@),
            string_views(valid@) == valid_paths(string_views(paths@.take(i as int)), w, ro),
            string_views(bad@) == violations(string_views(paths@.take(i as int)), w, ro),
        decreases paths@.len() - i,
    {
        proof {
            assert(string_views(paths@.take(i + 1)).drop_last() =~= string_views(paths@.take(i as int)));
            assert(string_views(paths@.take(i + 1)).last() == paths@[i as int]@);
        }
        let path = paths[i].as_str();
        let ok = in_any(path, writable) || !in_any(path, readonly);
        if ok {
            valid.push(paths[i].clone());
            proof {
                assert(string_views(valid@) =~= string_views(valid@.drop_last()).push(paths@[i as int]@));
            }
        } else {
            let mut m = chars_of(path);
            push_str(&mut m, " (read-only - generated or owned by another agent)");
            bad.push(string_of(&m));
            proof {
                assert(string_views(bad@) =~= string_views(bad@.drop_last()).push(violation_line(paths@[i as int]@)));
            }
        }
        i = i + 1;
    }
    assert(paths@.take(paths@.len() as int) =~= paths@);
    HandoffCheck { valid, violations: bad }
}

/// Every modified path is either handed off or reported as a violation.
pub proof fn law_handoff_partitions(paths: Seq<Seq<char>>, writable: Seq<Seq<char>>, readonly: Seq<Seq<char>>)
    ensures
        valid_paths(paths, writable, readonly).len() + violations(paths, writable, readonly).len()
            == paths.len(),
    decreases paths.len(),
{
    if paths.len() > 0 {
        law_handoff_partitions(paths.drop_last(), writable, readonly);
    }
}

/// A path inside a writable boundary is never a violation, whatever the
/// read-only boundaries say.
pub proof fn law_writable_wins(path: Seq<char>, writable: Seq<Seq<char>>, readonly: Seq<Seq<char>>, i: int)
    requires
        0 <= i < writable.len(),
        in_boundary(path, writable[i]),
    ensures
        may_modify(path, writable, readonly),
{
}


proof fn lemma_affected_from_order(order: Seq<Seq<char>>, paths: Seq<Seq<char>>, rules: Seq<(Seq<char>, Seq<char>)>)
    ensures
        forall|i: int| 0 <= i < affected(order, paths, rules).len() ==> {
            &&& #[trigger] affected(order, paths, rules)[i] != verify_step()
            &&& order.contains(affected(order, paths, rules)[i])
        },
    decreases order.len(),
{
    if order.len() > 0 {
        lemma_affected_from_order(order.drop_last(), paths, rules);
        let rest = affected(order.drop_last(), paths, rules);
        assert forall|i: int| 0 <= i < affected(order, paths, rules).len() implies {
            &&& #[trigger] affected(order, paths, rules)[i] != verify_step()
            &&& order.contains(affected(order, paths, rules)[i])
        } by {
            if i < rest.len() {
                assert(affected(order, paths, rules)[i] == rest[i]);
                let j = choose|j: int| 0 <= j < order.drop_last().len() && order.drop_last()[j] == rest[i];
                assert(order[j] == rest[i]);
            } else {
                assert(order[order.len() - 1] == order.last());
            }
        }
    }
}

/// Every dispatch ends with `(verify)`, which occurs nowhere before it; each
/// agent before it is the planner or an agent of the dispatch order.
pub proof fn law_dispatch_shape(order: Seq<Seq<char>>, paths: Seq<Seq<char>>, rules: Seq<(Seq<char>, Seq<char>)>)
    ensures
        dispatch_spec(order, paths, rules).last() == verify_step(),
        forall|i: int| 0 <= i < dispatch_spec(order, paths, rules).len() - 1 ==> {
            &&& #[trigger] dispatch_spec(order, paths, rules)[i] != verify_step()
            &&& (dispatch_spec(order, paths, rules)[i] == "planner"@ || order.contains(dispatch_spec(order, paths, rules)[i]))
        },
{
    reveal_strlit("planner");
    reveal_strlit("(verify)");
    lemma_affected_from_order(order, paths, rules);
    let d = dispatch_spec(order, paths, rules);
    let head: Seq<Seq<char>> = if paths_for(paths, rules, "planner"@).len() > 0 {
        seq!["planner"@]
    } else {
        Seq::empty()
    };
    let mid = affected(order, paths, rules);
    assert(d == head + mid + seq![verify_step()]);
    assert("planner"@ != verify_step()) by {
        assert("planner"@[0] != verify_step()[0]);
    }
    assert forall|i: int| 0 <= i < d.len() - 1 implies {
        &&& #[trigger] d[i] != verify_step()
        &&& (d[i] == "planner"@ || order.contains(d[i]))
    } by {
        if i < head.len() {
            assert(d[i] == "planner"@);
        } else {
            assert(d[i] == mid[i - head.len()]);
        }
    }
}

} // verus!
