//! Import rules between path families: a rule names the families it applies
//! to, the dependency paths it forbids or allows, and its exceptions; each
//! dependency of a manifest is held against every rule that applies.
use vstd::prelude::*;

use crate::doc::{
    bool_of, doc_bool, doc_get, doc_get_in, doc_texts, get, get_in, opt_doc_text, opt_text, parse_yaml,
    text_of, texts_in, yaml_document, DocValue,
};
use crate::gate::string_views;
use crate::sorting::{sort_dedup, strictly_sorted, views};
use crate::template::{forward, forward_slashes};
use crate::doc::{doc_text, entries_of, parse_toml, toml_document};
use crate::pattern::{except_path, exception_allows, excepted, pattern_match, pattern_matches, same_module, same_module_spec};
use crate::report::{escalates, flagged_views, lemma_escalates_concat, lemma_escalates_refl, lemma_escalates_single, Flagged};
use crate::text::{chars_of, has_prefix, push_chars, push_str, split, split_on, starts_with, string_of};

verus! {

/// An import rule of the code map.
#[derive(Debug, Clone)]
pub struct ImportRule {
    pub name: Option<String>,
    pub from: Vec<String>,
    pub disallow: Vec<String>,
    pub allow: Vec<String>,
    pub except: Vec<String>,
    pub except_same_module: bool,
}

/// The family of a path: its first `/`-separated segment.
pub open spec fn family(path: Seq<char>) -> Seq<char> {
    split(path, '/')[0]
}

/// Some pattern of the list matches `target`.
pub open spec fn any_match(target: Seq<char>, patterns: Seq<Seq<char>>) -> bool {
    exists|i: int| 0 <= i < patterns.len() && pattern_match(target, #[trigger] patterns[i])
}

/// The rule applies to manifests of the family.
pub open spec fn rule_applies(rule: ImportRule, fam: Seq<char>) -> bool {
    any_match(fam + "/**"@, string_views(rule.from@))
}

/// The rule's name, or `unnamed`.
pub open spec fn rule_name(rule: ImportRule) -> Seq<char> {
    match rule.name {
        Some(n) => n@,
        None => "unnamed"@,
    }
}

pub open spec fn forbidden_message(dep: Seq<char>, name: Seq<char>) -> Seq<char> {
    "depends on forbidden path "@ + dep + " (rule: "@ + name + ")"@
}

pub open spec fn outside_allowlist_message(dep: Seq<char>, name: Seq<char>) -> Seq<char> {
    "depends on path outside allowlist: "@ + dep + " (rule: "@ + name + ")"@
}

/// The finding, if any, for one dependency under one applying rule.
pub open spec fn dependency_finding(rule: ImportRule, source: Seq<char>, dep: Seq<char>, strict: bool) -> Seq<(bool, Seq<char>, Seq<char>)> {
    if rule.except_same_module && same_module_spec(source, dep) {
        Seq::empty()
    } else if excepted(source, dep, string_views(rule.except@)) {
        Seq::empty()
    } else if any_match(dep, string_views(rule.disallow@)) {
        seq![(strict, source, forbidden_message(dep, rule_name(rule)))]
    } else if rule.allow@.len() > 0 && !(has_prefix(dep, family(source) + "/"@) || any_match(
        dep,
        string_views(rule.allow@),
    )) {
        seq![(strict, source, outside_allowlist_message(dep, rule_name(rule)))]
    } else {
        Seq::empty()
    }
}

/// The findings of one rule over the dependencies, in order.
pub open spec fn rule_findings(rule: ImportRule, source: Seq<char>, deps: Seq<Seq<char>>, strict: bool) -> Seq<(bool, Seq<char>, Seq<char>)>
    decreases deps.len(),
{
    if deps.len() == 0 {
        Seq::empty()
    } else {
        rule_findings(rule, source, deps.drop_last(), strict) + dependency_finding(rule, source, deps.last(), strict)
    }
}

/// The findings of all rules that apply to the manifest's family, rule by
/// rule.
pub open spec fn import_findings_spec(rules: Seq<ImportRule>, source: Seq<char>, deps: Seq<Seq<char>>, strict: bool) -> Seq<(bool, Seq<char>, Seq<char>)>
    decreases rules.len(),
{
    if rules.len() == 0 {
        Seq::empty()
    } else {
        let rest = import_findings_spec(rules.drop_last(), source, deps, strict);
        if rule_applies(rules.last(), family(source)) {
            rest + rule_findings(rules.last(), source, deps, strict)
        } else {
            rest
        }
    }
}

/// Whether some pattern matches `target`.
fn matches_any(target: &str, patterns: &Vec<String>) -> (r: bool)
    ensures
        r == any_match(target@, string_views(patterns@)),
{
    let mut i: usize = 0;
    while i < patterns.len()
        invariant
            i <= patterns@.len(),
            forall|j: int| 0 <= j < i ==> !pattern_match(target@, #[trigger] string_views(patterns@)[j]),
        decreases patterns@.len() - i,
    {
        if pattern_matches(target, patterns[i].as_str()) {
            assert(pattern_match(target@, string_views(patterns@)[i as int]));
            return true;
        }
        i = i + 1;
    }
    false
}

/// The family of `path`.
pub fn family_of(path: &str) -> (r: String)
    ensures
        r@ == family(path@),
{
    let parts = split_on(&chars_of(path), '/');
    assert(split(path@, '/').len() > 0);
    string_of(&parts[0])
}

/// A message `<head><dep><mid><name>)`.
fn message(head: &str, dep: &str, name_exec: &str) -> (m: String)
    ensures
        m@ == head@ + dep@ + " (rule: "@ + name_exec@ + ")"@,
{
    let mut v = chars_of(head);
    push_str(&mut v, dep);
    push_str(&mut v, " (rule: ");
    push_str(&mut v, name_exec);
    push_str(&mut v, ")");
    string_of(&v)
}

/// The import findings of one manifest: each rule whose `from` patterns
/// cover the manifest's family is held against each dependency path. A
/// dependency is skipped when it lies in the same module (where the rule
/// allows that) or an exception covers it; it is forbidden when a `disallow`
/// pattern matches; with an allowlist it must be in the same family or match
/// an `allow` pattern.
pub fn import_findings(rules: &Vec<ImportRule>, source: &str, deps: &Vec<String>, strict: bool) -> (r: Vec<Flagged>)
    ensures
        flagged_views(r@) == import_findings_spec(rules@, source@, string_views(deps@), strict),
{
    let fam = family_of(source);
    let mut fam_glob = chars_of(fam.as_str());
    push_str(&mut fam_glob, "/**");
    let fam_glob = string_of(&fam_glob);
    let mut fam_dir = chars_of(fam.as_str());
    push_str(&mut fam_dir, "/");
    let ghost dv = string_views(deps@);
    let mut out: Vec<Flagged> = Vec::new();
    let mut i: usize = 0;
    while i < rules.len()
        invariant
            i <= rules@.len(),
            fam@ == family(source@),
            fam_glob@ == family(source@) + "/**"@,
            fam_dir@ == family(source@) + "/"@,
            dv == string_views(deps@),
            flagged_views(out@) == import_findings_spec(rules@.take(i as int), source@, dv, strict),
        decreases rules@.len() - i,
    {
        proof {
            assert(rules@.take(i + 1).drop_last() =~= rules@.take(i as int));
        }
        let rule = &rules[i];
        if matches_any(fam_glob.as_str(), &rule.from) {
            let name: String = match &rule.name {
                Some(n) => n.clone(),
                None => "unnamed".to_string(),
            };
            let ghost base = flagged_views(out@);
            let mut j: usize = 0;
            while j < deps.len()
                invariant
                    j <= deps@.len(),
                    fam_dir@ == family(source@) + "/"@,
                    name@ == rule_name(*rule),
                    dv == string_views(deps@),
                    flagged_views(out@) == base + rule_findings(*rule, source@, dv.take(j as int), strict),
                decreases deps@.len() - j,
            {
                proof {
                    assert(dv.take(j + 1).drop_last() =~= dv.take(j as int));
                    assert(dv.take(j + 1).last() == deps@[j as int]@);
                }
                let dep = deps[j].as_str();
                let ghost before = flagged_views(out@);
                if rule.except_same_module && same_module(source, dep) {
                } else if except_path(source, dep, rule.except.as_slice()) {
                } else if matches_any(dep, &rule.disallow) {
                    let m = message("depends on forbidden path ", dep, name.as_str());
                    out.push(Flagged { error: strict, scope: source.to_string(), message: m });
                } else if rule.allow.len() > 0 && !(starts_with(&chars_of(dep), &fam_dir) || matches_any(dep, &rule.allow)) {
                    let m = message("depends on path outside allowlist: ", dep, name.as_str());
                    out.push(Flagged { error: strict, scope: source.to_string(), message: m });
                }
                proof {
                    assert(rule.except@.map_values(|e: String| e@) =~= string_views(rule.except@));
                    assert(flagged_views(out@) =~= before + dependency_finding(*rule, source@, deps@[j as int]@, strict));
                }
                j = j + 1;
            }
            assert(dv.take(deps@.len() as int) =~= dv);
        }
        i = i + 1;
    }
    assert(rules@.take(rules@.len() as int) =~= rules@);
    out
}


// ---------------------------------------------------------------------------
// Mode
// ---------------------------------------------------------------------------

proof fn lemma_dependency_finding_escalates(rule: ImportRule, source: Seq<char>, dep: Seq<char>)
    ensures
        escalates(dependency_finding(rule, source, dep, false), dependency_finding(rule, source, dep, true)),
{
    let name = rule_name(rule);
    lemma_escalates_single((false, source, forbidden_message(dep, name)), (true, source, forbidden_message(dep, name)));
    lemma_escalates_single(
        (false, source, outside_allowlist_message(dep, name)),
        (true, source, outside_allowlist_message(dep, name)),
    );
}

proof fn lemma_rule_findings_escalates(rule: ImportRule, source: Seq<char>, deps: Seq<Seq<char>>)
    ensures
        escalates(rule_findings(rule, source, deps, false), rule_findings(rule, source, deps, true)),
    decreases deps.len(),
{
    if deps.len() == 0 {
        lemma_escalates_refl(Seq::empty());
    } else {
        lemma_rule_findings_escalates(rule, source, deps.drop_last());
        lemma_dependency_finding_escalates(rule, source, deps.last());
        lemma_escalates_concat(
            rule_findings(rule, source, deps.drop_last(), false),
            dependency_finding(rule, source, deps.last(), false),
            rule_findings(rule, source, deps.drop_last(), true),
            dependency_finding(rule, source, deps.last(), true),
        );
    }
}

/// The mode only sets severities: strict mode reports the same import
/// findings as warn mode, in the same order, with warnings raised to errors.
pub proof fn law_import_strict_escalates(rules: Seq<ImportRule>, source: Seq<char>, deps: Seq<Seq<char>>)
    ensures
        escalates(import_findings_spec(rules, source, deps, false), import_findings_spec(rules, source, deps, true)),
    decreases rules.len(),
{
    if rules.len() == 0 {
        lemma_escalates_refl(Seq::empty());
    } else {
        law_import_strict_escalates(rules.drop_last(), source, deps);
        if rule_applies(rules.last(), family(source)) {
            lemma_rule_findings_escalates(rules.last(), source, deps);
            lemma_escalates_concat(
                import_findings_spec(rules.drop_last(), source, deps, false),
                rule_findings(rules.last(), source, deps, false),
                import_findings_spec(rules.drop_last(), source, deps, true),
                rule_findings(rules.last(), source, deps, true),
            );
        }
    }
}


/// Both paths have at least two segments and agree on the first two.
pub open spec fn shares_module(source: Seq<char>, dep: Seq<char>) -> bool {
    let a = split(source, '/');
    let b = split(dep, '/');
    a.len() > 1 && b.len() > 1 && a[0] == b[0] && a[1] == b[1]
}

proof fn lemma_same_module_deps_skipped(rule: ImportRule, source: Seq<char>, deps: Seq<Seq<char>>, strict: bool)
    requires
        rule.except_same_module,
        forall|i: int| 0 <= i < deps.len() ==> shares_module(source, #[trigger] deps[i]),
    ensures
        rule_findings(rule, source, deps, strict) == Seq::<(bool, Seq<char>, Seq<char>)>::empty(),
    decreases deps.len(),
{
    if deps.len() > 0 {
        assert(shares_module(source, deps[deps.len() - 1]));
        assert(same_module_spec(source, deps.last()));
        lemma_same_module_deps_skipped(rule, source, deps.drop_last(), strict);
    }
}

/// Rules that exempt same-module dependencies report nothing for a manifest
/// whose dependencies all lie in its own module (the same first two path
/// segments), whatever those rules forbid.
pub proof fn law_same_module_exempt(rules: Seq<ImportRule>, source: Seq<char>, deps: Seq<Seq<char>>, strict: bool)
    requires
        forall|r: int| 0 <= r < rules.len() ==> (#[trigger] rules[r]).except_same_module,
        forall|i: int| 0 <= i < deps.len() ==> shares_module(source, #[trigger] deps[i]),
    ensures
        import_findings_spec(rules, source, deps, strict).len() == 0,
    decreases rules.len(),
{
    if rules.len() > 0 {
        assert(rules.last().except_same_module);
        law_same_module_exempt(rules.drop_last(), source, deps, strict);
        lemma_same_module_deps_skipped(rules.last(), source, deps, strict);
    }
}

/// A rule that does not exempt same-module dependencies holds every
/// dependency against its `disallow` patterns, in its own module too: a
/// dependency that no exception covers and that a `disallow` pattern matches
/// is reported as forbidden under that rule, with the mode's severity.
pub proof fn law_forbidden_dependency_reported(rule: ImportRule, source: Seq<char>, dep: Seq<char>, strict: bool, k: int)
    requires
        !rule.except_same_module,
        any_match(family(source) + "/**"@, string_views(rule.from@)),
        !excepted(source, dep, string_views(rule.except@)),
        0 <= k < rule.disallow@.len(),
        pattern_match(dep, rule.disallow@[k]@),
    ensures
        import_findings_spec(seq![rule], source, seq![dep], strict) == seq![
            (strict, source, "depends on forbidden path "@ + dep + " (rule: "@ + rule_name(rule) + ")"@),
        ],
{
    assert(string_views(rule.disallow@)[k] == rule.disallow@[k]@);
    assert(any_match(dep, string_views(rule.disallow@)));
    assert(seq![rule].drop_last() =~= Seq::<ImportRule>::empty());
    assert(seq![rule].last() == rule);
    assert(seq![dep].drop_last() =~= Seq::<Seq<char>>::empty());
    assert(seq![dep].last() == dep);
    assert(rule_applies(rule, family(source)));
    assert(dependency_finding(rule, source, dep, strict) == seq![
        (strict, source, forbidden_message(dep, rule_name(rule))),
    ]);
    let d = dependency_finding(rule, source, dep, strict);
    assert(rule_findings(rule, source, seq![dep].drop_last(), strict) == Seq::<(bool, Seq<char>, Seq<char>)>::empty());
    assert(Seq::<(bool, Seq<char>, Seq<char>)>::empty() + d =~= d);
    assert(import_findings_spec(seq![rule].drop_last(), source, seq![dep], strict) == Seq::<(bool, Seq<char>, Seq<char>)>::empty());
    assert(rule_findings(rule, source, seq![dep], strict) =~= seq![
        (strict, source, "depends on forbidden path "@ + dep + " (rule: "@ + rule_name(rule) + ")"@),
    ]);
}

proof fn lemma_single(rule: ImportRule, source: Seq<char>, dep: Seq<char>, strict: bool)
    ensures
        import_findings_spec(seq![rule], source, seq![dep], strict) == (if rule_applies(
            rule,
            family(source),
        ) {
            dependency_finding(rule, source, dep, strict)
        } else {
            Seq::empty()
        }),
{
    let d = dependency_finding(rule, source, dep, strict);
    assert(seq![rule].drop_last() =~= Seq::<ImportRule>::empty());
    assert(seq![rule].last() == rule);
    assert(seq![dep].drop_last() =~= Seq::<Seq<char>>::empty());
    assert(seq![dep].last() == dep);
    assert(rule_findings(rule, source, seq![dep].drop_last(), strict) == Seq::<(bool, Seq<char>, Seq<char>)>::empty());
    assert(Seq::<(bool, Seq<char>, Seq<char>)>::empty() + d =~= d);
    assert(import_findings_spec(seq![rule].drop_last(), source, seq![dep], strict) == Seq::<(bool, Seq<char>, Seq<char>)>::empty());
}

/// Rules whose `from` patterns do not cover the manifest's family say
/// nothing about it.
pub proof fn law_rules_outside_scope_silent(rules: Seq<ImportRule>, source: Seq<char>, deps: Seq<Seq<char>>, strict: bool)
    requires
        forall|r: int, k: int|
            0 <= r < rules.len() && 0 <= k < rules[r].from@.len() ==> !pattern_match(
                family(source) + "/**"@,
                #[trigger] rules[r].from@[k]@,
            ),
    ensures
        import_findings_spec(rules, source, deps, strict).len() == 0,
    decreases rules.len(),
{
    if rules.len() > 0 {
        let last = rules[rules.len() - 1];
        assert forall|k: int| 0 <= k < string_views(last.from@).len() implies !pattern_match(
            family(source) + "/**"@,
            #[trigger] string_views(last.from@)[k],
        ) by {
            assert(string_views(last.from@)[k] == last.from@[k]@);
        }
        assert(!rule_applies(last, family(source)));
        law_rules_outside_scope_silent(rules.drop_last(), source, deps, strict);
    }
}

/// A dependency that one of the rule's exceptions allows for the manifest
/// is never reported under that rule, whatever the rule forbids.
pub proof fn law_excepted_dependency_silent(rule: ImportRule, source: Seq<char>, dep: Seq<char>, strict: bool, k: int)
    requires
        0 <= k < rule.except@.len(),
        exception_allows(rule.except@[k]@, source, dep),
    ensures
        import_findings_spec(seq![rule], source, seq![dep], strict).len() == 0,
{
    assert(string_views(rule.except@)[k] == rule.except@[k]@);
    assert(excepted(source, dep, string_views(rule.except@)));
    lemma_single(rule, source, dep, strict);
}

/// With an allowlist, a dependency outside the manifest's family that no
/// `allow` pattern matches (and that is not forbidden, excepted or exempt
/// as same-module) is reported as outside the allowlist.
pub proof fn law_outside_allowlist_reported(rule: ImportRule, source: Seq<char>, dep: Seq<char>, strict: bool)
    requires
        any_match(family(source) + "/**"@, string_views(rule.from@)),
        !(rule.except_same_module && shares_module(source, dep)),
        forall|k: int| 0 <= k < rule.except@.len() ==> !exception_allows(#[trigger] rule.except@[k]@, source, dep),
        forall|k: int| 0 <= k < rule.disallow@.len() ==> !pattern_match(dep, #[trigger] rule.disallow@[k]@),
        rule.allow@.len() > 0,
        !has_prefix(dep, family(source) + "/"@),
        forall|k: int| 0 <= k < rule.allow@.len() ==> !pattern_match(dep, #[trigger] rule.allow@[k]@),
    ensures
        import_findings_spec(seq![rule], source, seq![dep], strict) == seq![
            (strict, source, "depends on path outside allowlist: "@ + dep + " (rule: "@ + rule_name(rule) + ")"@),
        ],
{
    assert(!excepted(source, dep, string_views(rule.except@))) by {
        if excepted(source, dep, string_views(rule.except@)) {
            let i = choose|i: int| 0 <= i < string_views(rule.except@).len() && exception_allows(
                string_views(rule.except@)[i],
                source,
                dep,
            );
            assert(string_views(rule.except@)[i] == rule.except@[i]@);
        }
    }
    assert(!any_match(dep, string_views(rule.disallow@))) by {
        if any_match(dep, string_views(rule.disallow@)) {
            let i = choose|i: int| 0 <= i < string_views(rule.disallow@).len() && pattern_match(
                dep,
                string_views(rule.disallow@)[i],
            );
            assert(string_views(rule.disallow@)[i] == rule.disallow@[i]@);
        }
    }
    assert(!any_match(dep, string_views(rule.allow@))) by {
        if any_match(dep, string_views(rule.allow@)) {
            let i = choose|i: int| 0 <= i < string_views(rule.allow@).len() && pattern_match(
                dep,
                string_views(rule.allow@)[i],
            );
            assert(string_views(rule.allow@)[i] == rule.allow@[i]@);
        }
    }
    assert(!(rule.except_same_module && same_module_spec(source, dep)));
    lemma_single(rule, source, dep, strict);
}

/// A dependency in the manifest's own family that no `disallow` pattern
/// matches is never reported, allowlist or not.
pub proof fn law_own_family_allowed(rule: ImportRule, source: Seq<char>, dep: Seq<char>, strict: bool)
    requires
        has_prefix(dep, family(source) + "/"@),
        forall|k: int| 0 <= k < rule.disallow@.len() ==> !pattern_match(dep, #[trigger] rule.disallow@[k]@),
    ensures
        import_findings_spec(seq![rule], source, seq![dep], strict).len() == 0,
{
    assert(!any_match(dep, string_views(rule.disallow@))) by {
        if any_match(dep, string_views(rule.disallow@)) {
            let i = choose|i: int| 0 <= i < string_views(rule.disallow@).len() && pattern_match(
                dep,
                string_views(rule.disallow@)[i],
            );
            assert(string_views(rule.disallow@)[i] == rule.disallow@[i]@);
        }
    }
    lemma_single(rule, source, dep, strict);
}

proof fn lemma_rule_findings_about(rule: ImportRule, source: Seq<char>, deps: Seq<Seq<char>>, strict: bool)
    ensures
        forall|i: int|
            0 <= i < rule_findings(rule, source, deps, strict).len() ==> (#[trigger] rule_findings(
                rule,
                source,
                deps,
                strict,
            )[i]).0 == strict && rule_findings(rule, source, deps, strict)[i].1 == source,
        rule_findings(rule, source, deps, strict).len() <= deps.len(),
    decreases deps.len(),
{
    if deps.len() > 0 {
        lemma_rule_findings_about(rule, source, deps.drop_last(), strict);
    }
}

/// Every import finding is about the manifest itself, carries the mode's
/// severity, and there is at most one per rule and dependency.
pub proof fn law_import_findings_about_source(rules: Seq<ImportRule>, source: Seq<char>, deps: Seq<Seq<char>>, strict: bool)
    ensures
        forall|i: int|
            0 <= i < import_findings_spec(rules, source, deps, strict).len() ==> (
            #[trigger] import_findings_spec(rules, source, deps, strict)[i]).0 == strict
                && import_findings_spec(rules, source, deps, strict)[i].1 == source,
        import_findings_spec(rules, source, deps, strict).len() <= rules.len() * deps.len(),
    decreases rules.len(),
{
    if rules.len() > 0 {
        law_import_findings_about_source(rules.drop_last(), source, deps, strict);
        lemma_rule_findings_about(rules.last(), source, deps, strict);
        let rest = import_findings_spec(rules.drop_last(), source, deps, strict);
        let add = rule_findings(rules.last(), source, deps, strict);
        if rule_applies(rules.last(), family(source)) {
            assert forall|i: int| 0 <= i < (rest + add).len() implies (#[trigger] (rest + add)[i]).0
                == strict && (rest + add)[i].1 == source by {
                if i < rest.len() {
                    assert((rest + add)[i] == rest[i]);
                } else {
                    assert((rest + add)[i] == add[i - rest.len()]);
                }
            }
        }
        assert(rules.len() * deps.len() == (rules.len() - 1) * deps.len() + deps.len()) by (nonlinear_arith);
    }
}

// ---------------------------------------------------------------------------
// Rules read from the code map
// ---------------------------------------------------------------------------

/// An import rule as plain values.
pub open spec fn rule_view(r: ImportRule) -> (
    Option<Seq<char>>,
    Seq<Seq<char>>,
    Seq<Seq<char>>,
    Seq<Seq<char>>,
    Seq<Seq<char>>,
    bool,
) {
    (
        match r.name {
            Some(n) => Some(n@),
            None => None,
        },
        string_views(r.from@),
        string_views(r.disallow@),
        string_views(r.allow@),
        string_views(r.except@),
        r.except_same_module,
    )
}

/// The patterns of a rule field: the strings of a list, a single string,
/// or none.
pub open spec fn patterns_of(v: Option<DocValue>) -> Seq<Seq<char>> {
    match v {
        Some(DocValue::List(items)) => texts_in(items@),
        Some(x) => match text_of(x) {
            Some(s) => seq![s],
            None => Seq::empty(),
        },
        None => Seq::empty(),
    }
}

/// The rule a code map mapping declares; `except_same_module` is false
/// unless it is the boolean true.
pub open spec fn rule_of(m: DocValue) -> (
    Option<Seq<char>>,
    Seq<Seq<char>>,
    Seq<Seq<char>>,
    Seq<Seq<char>>,
    Seq<Seq<char>>,
    bool,
) {
    (
        opt_text(get(m, "name"@)),
        patterns_of(get(m, "from"@)),
        patterns_of(get(m, "disallow"@)),
        patterns_of(get(m, "allow"@)),
        patterns_of(get(m, "except"@)),
        match get(m, "except_same_module"@) {
            Some(x) => bool_of(x) == Some(true),
            None => false,
        },
    )
}

/// The rules of the mappings among the items, in order.
pub open spec fn rules_in(items: Seq<DocValue>) -> Seq<
    (Option<Seq<char>>, Seq<Seq<char>>, Seq<Seq<char>>, Seq<Seq<char>>, Seq<Seq<char>>, bool),
>
    decreases items.len(),
{
    if items.len() == 0 {
        Seq::empty()
    } else {
        let rest = rules_in(items.drop_last());
        match items.last() {
            DocValue::Mapping(_) => rest.push(rule_of(items.last())),
            _ => rest,
        }
    }
}

/// The import rules of a code map document: the mappings listed under
/// `rules.imports`.
pub open spec fn codemap_rules_spec(d: DocValue) -> Seq<
    (Option<Seq<char>>, Seq<Seq<char>>, Seq<Seq<char>>, Seq<Seq<char>>, Seq<Seq<char>>, bool),
> {
    match get_in(get(d, "rules"@), "imports"@) {
        Some(DocValue::List(items)) => rules_in(items@),
        _ => Seq::empty(),
    }
}

/// The patterns of a rule field.
fn patterns(v: Option<&DocValue>) -> (r: Vec<String>)
    ensures
        string_views(r@) == patterns_of(match v { Some(x) => Some(*x), None => None }),
{
    match v {
        Some(DocValue::List(items)) => doc_texts(items),
        Some(x) => match opt_doc_text(Some(x)) {
            Some(s) => {
                let mut out: Vec<String> = Vec::new();
                out.push(s);
                assert(string_views(out@) =~= seq![s@]);
                out
            },
            None => {
                let out: Vec<String> = Vec::new();
                assert(string_views(out@) =~= Seq::<Seq<char>>::empty());
                out
            },
        },
        None => {
            let out: Vec<String> = Vec::new();
            assert(string_views(out@) =~= Seq::<Seq<char>>::empty());
            out
        },
    }
}

/// The rule a code map mapping declares.
fn rule_from(m: &DocValue) -> (r: ImportRule)
    ensures
        rule_view(r) == rule_of(*m),
{
    let except_same_module = match doc_get(m, "except_same_module") {
        Some(x) => match doc_bool(x) {
            Some(b) => b,
            None => false,
        },
        None => false,
    };
    ImportRule {
        name: opt_doc_text(doc_get(m, "name")),
        from: patterns(doc_get(m, "from")),
        disallow: patterns(doc_get(m, "disallow")),
        allow: patterns(doc_get(m, "allow")),
        except: patterns(doc_get(m, "except")),
        except_same_module,
    }
}

/// The import rules of the code map text; `None` where it is not YAML.
pub fn codemap_import_rules(codemap: &str) -> (r: Option<Vec<ImportRule>>)
    ensures
        match yaml_document(codemap@) {
            None => r is None,
            Some(d) => r matches Some(v) && v@.map_values(|x: ImportRule| rule_view(x))
                == codemap_rules_spec(d),
        },
{
    let doc = match parse_yaml(codemap) {
        None => return None,
        Some(d) => d,
    };
    let mut out: Vec<ImportRule> = Vec::new();
    match doc_get_in(doc_get(&doc, "rules"), "imports") {
        Some(DocValue::List(items)) => {
            let mut i: usize = 0;
            while i < items.len()
                invariant
                    i <= items@.len(),
                    out@.map_values(|x: ImportRule| rule_view(x)) =~= rules_in(items@.take(i as int)),
                decreases items@.len() - i,
            {
                assert(items@.take(i + 1).drop_last() =~= items@.take(i as int));
                let ghost before = out@;
                match &items[i] {
                    DocValue::Mapping(_) => {
                        let rule = rule_from(&items[i]);
                        out.push(rule);
                        assert(out@.map_values(|x: ImportRule| rule_view(x)) =~= before.map_values(
                            |x: ImportRule| rule_view(x),
                        ).push(rule_of(items@[i as int])));
                    },
                    _ => {},
                }
                i = i + 1;
            }
            assert(items@.take(items@.len() as int) =~= items@);
        },
        _ => {},
    }
    Some(out)
}


// ---------------------------------------------------------------------------
// Dependency paths of a manifest
// ---------------------------------------------------------------------------

/// The path the workspace manifest gives a dependency in
/// `[workspace.dependencies]`, with backslashes turned into slashes.
pub open spec fn workspace_path(ws: DocValue, name: Seq<char>) -> Option<Seq<char>> {
    match opt_text(get_in(get_in(get_in(get(ws, "workspace"@), "dependencies"@), name), "path"@)) {
        Some(p) => Some(forward_slashes(p)),
        None => None,
    }
}

/// The path one dependency entry points to: its own `path`, relative to the
/// manifest's directory, or for `workspace = true` the workspace's path for
/// that name; entries that are not tables point nowhere.
pub open spec fn entry_path(k: DocValue, v: DocValue, ws: DocValue, dir: Seq<char>) -> Option<Seq<char>> {
    match v {
        DocValue::Mapping(_) => match opt_text(get(v, "path"@)) {
            Some(p) => Some(forward_slashes(dir + "/"@ + p)),
            None => if (match get(v, "workspace"@) {
                Some(x) => bool_of(x) == Some(true),
                None => false,
            }) {
                match text_of(k) {
                    Some(name) => workspace_path(ws, name),
                    None => None,
                }
            } else {
                None
            },
        },
        _ => None,
    }
}

/// The paths of the entries of one dependency table, in order.
pub open spec fn section_paths(e: Seq<(DocValue, DocValue)>, ws: DocValue, dir: Seq<char>) -> Seq<Seq<char>>
    decreases e.len(),
{
    if e.len() == 0 {
        Seq::empty()
    } else {
        let rest = section_paths(e.drop_last(), ws, dir);
        match entry_path(e.last().0, e.last().1, ws, dir) {
            Some(p) => rest.push(p),
            None => rest,
        }
    }
}

/// The paths of a named dependency table of the manifest.
pub open spec fn table_paths(m: DocValue, section: Seq<char>, ws: DocValue, dir: Seq<char>) -> Seq<Seq<char>> {
    match get(m, section) {
        Some(DocValue::Mapping(e)) => section_paths(e@, ws, dir),
        _ => Seq::empty(),
    }
}

/// The dependency paths of a manifest: its normal, dev and build
/// dependencies, in that order.
pub open spec fn manifest_paths_spec(m: DocValue, ws: DocValue, dir: Seq<char>) -> Seq<Seq<char>> {
    table_paths(m, "dependencies"@, ws, dir) + table_paths(m, "dev-dependencies"@, ws, dir)
        + table_paths(m, "build-dependencies"@, ws, dir)
}

/// `dir/path` with backslashes turned into slashes.
fn joined_path(dir: &str, path: &str) -> (r: Vec<char>)
    ensures
        r@ == forward_slashes(dir@ + "/"@ + path@),
{
    let mut t: Vec<char> = chars_of(dir);
    push_str(&mut t, "/");
    push_str(&mut t, path);
    let s = string_of(&t);
    forward(s.as_str())
}

/// Appends the paths of one dependency table.
fn push_section_paths(out: &mut Vec<Vec<char>>, m: &DocValue, section: &str, ws: &DocValue, dir: &str)
    ensures
        views(final(out)@) == views(old(out)@) + table_paths(*m, section@, *ws, dir@),
{
    let ghost start = views(out@);
    match doc_get(m, section) {
        Some(DocValue::Mapping(e)) => {
            let mut i: usize = 0;
            while i < e.len()
                invariant
                    i <= e@.len(),
                    views(out@) =~= start + section_paths(e@.take(i as int), *ws, dir@),
                decreases e@.len() - i,
            {
                assert(e@.take(i + 1).drop_last() =~= e@.take(i as int));
                let k = &e[i].0;
                let v = &e[i].1;
                let found: Option<Vec<char>> = match v {
                    DocValue::Mapping(_) => match opt_doc_text(doc_get(v, "path")) {
                        Some(p) => Some(joined_path(dir, p.as_str())),
                        None => {
                            let member = match doc_get(v, "workspace") {
                                Some(x) => doc_bool(x) == Some(true),
                                None => false,
                            };
                            if member {
                                match doc_text(k) {
                                    Some(name) => match opt_doc_text(
                                        doc_get_in(doc_get_in(doc_get_in(doc_get(ws, "workspace"), "dependencies"), name.as_str()), "path"),
                                    ) {
                                        Some(p) => Some(forward(p.as_str())),
                                        None => None,
                                    },
                                    None => None,
                                }
                            } else {
                                None
                            }
                        },
                    },
                    _ => None,
                };
                assert(match found {
                    Some(f) => entry_path(e@[i as int].0, e@[i as int].1, *ws, dir@) == Some(f@),
                    None => entry_path(e@[i as int].0, e@[i as int].1, *ws, dir@) is None,
                });
                match found {
                    Some(f) => {
                        let ghost before = views(out@);
                        let ghost fv = f@;
                        out.push(f);
                        assert(views(out@) =~= before.push(fv));
                    },
                    None => {},
                }
                i = i + 1;
            }
            assert(e@.take(e@.len() as int) =~= e@);
        },
        _ => {
            assert(views(out@) =~= start + Seq::<Seq<char>>::empty());
        },
    }
}

/// The dependency paths of a member manifest, sorted and without
/// duplicates; `None` where either manifest is not TOML.
pub fn manifest_dependency_paths(manifest: &str, workspace_manifest: &str, manifest_dir: &str) -> (r: Option<Vec<String>>)
    ensures
        match (toml_document(manifest@), toml_document(workspace_manifest@)) {
            (Some(m), Some(ws)) => r matches Some(v) && strictly_sorted(string_views(v@))
                && string_views(v@).to_set() == manifest_paths_spec(m, ws, manifest_dir@).to_set(),
            _ => r is None,
        },
{
    let ws = match parse_toml(workspace_manifest) {
        None => return None,
        Some(d) => d,
    };
    let m = match parse_toml(manifest) {
        None => return None,
        Some(d) => d,
    };
    let mut raw: Vec<Vec<char>> = Vec::new();
    push_section_paths(&mut raw, &m, "dependencies", &ws, manifest_dir);
    push_section_paths(&mut raw, &m, "dev-dependencies", &ws, manifest_dir);
    push_section_paths(&mut raw, &m, "build-dependencies", &ws, manifest_dir);
    assert(views(raw@) =~= manifest_paths_spec(m, ws, manifest_dir@));
    let sorted = sort_dedup(raw);
    let mut out: Vec<String> = Vec::new();
    let mut i: usize = 0;
    while i < sorted.len()
        invariant
            i <= sorted@.len(),
            string_views(out@) =~= views(sorted@).take(i as int),
        decreases sorted@.len() - i,
    {
        let ghost before = string_views(out@);
        let s = string_of(&sorted[i]);
        out.push(s);
        assert(string_views(out@) =~= before.push(sorted@[i as int]@));
        i = i + 1;
    }
    assert(views(sorted@).take(sorted@.len() as int) =~= views(sorted@));
    Some(out)
}

} // verus!
