//! Contract checks: the dependency boundaries between workspace crates, which
//! contract types a crate exports, which contract crates a manifest depends
//! on, and the findings of the contract-coverage validation.
//!
//! Reading manifests and sources is the caller's part; these functions take
//! what was read and decide.
use vstd::prelude::*;

use crate::doc::{
    doc_get, doc_get_in, opt_doc_text, get, get_in, json_document, opt_text, parse_json, parse_toml,
    toml_document, DocValue,
};
use crate::gate::string_views;
use crate::pattern::{
    capture_views, comment_patterns_compile, regex_captures, regex_captures_result, regex_compiles,
    regex_first_capture, first_capture, regex_is_match, regex_match_result, strip_rust_comments,
    stripped,
};
use crate::report::{escalates, flagged_views, lemma_escalates_concat, lemma_escalates_refl, lemma_escalates_single, Flagged};
use crate::sorting::{sort_dedup, sorted_order, stable_order, strictly_sorted, views};
use crate::text::{
    byte_boundary, chars_of, contains, contains_chars, ends_with, has_suffix, lines, push_str, same_chars, slice,
    split_lines, string_of,
};

verus! {

// ---------------------------------------------------------------------------
// Helpers on lists of strings
// ---------------------------------------------------------------------------

/// Whether `v` holds `s`.
pub fn vec_has(v: &Vec<String>, s: &str) -> (r: bool)
    ensures
        r == exists|j: int| 0 <= j < v@.len() && (#[trigger] v@[j])@ == s@,
{
    let c = chars_of(s);
    let mut i: usize = 0;
    while i < v.len()
        invariant
            i <= v@.len(),
            c@ == s@,
            forall|j: int| 0 <= j < i ==> (#[trigger] v@[j])@ != s@,
        decreases v@.len() - i,
    {
        if same_chars(&chars_of(v[i].as_str()), &c) {
            return true;
        }
        i = i + 1;
    }
    false
}

/// Whether `text` contains one of `needles`.
pub fn contains_any(text: &str, needles: &Vec<String>) -> (r: bool)
    ensures
        r == exists|j: int| 0 <= j < needles@.len() && contains(text@, (#[trigger] needles@[j])@),
{
    let t = chars_of(text);
    let mut i: usize = 0;
    while i < needles.len()
        invariant
            i <= needles@.len(),
            t@ == text@,
            forall|j: int| 0 <= j < i ==> !contains(text@, (#[trigger] needles@[j])@),
        decreases needles@.len() - i,
    {
        if contains_chars(&t, &chars_of(needles[i].as_str())) {
            return true;
        }
        i = i + 1;
    }
    false
}

/// The parts joined with `sep` between them (`[&str]::join`).
pub open spec fn join(parts: Seq<Seq<char>>, sep: Seq<char>) -> Seq<char>
    decreases parts.len(),
{
    if parts.len() == 0 {
        Seq::empty()
    } else if parts.len() == 1 {
        parts[0]
    } else {
        join(parts.drop_last(), sep) + sep + parts.last()
    }
}

/// The strings joined with `sep` between them.
pub fn join_strings(parts: &Vec<String>, sep: &str) -> (r: String)
    ensures
        r@ == join(string_views(parts@), sep@),
{
    let mut out: Vec<char> = Vec::new();
    let mut i: usize = 0;
    while i < parts.len()
        invariant
            i <= parts@.len(),
            out@ == join(string_views(parts@.take(i as int)), sep@),
        decreases parts@.len() - i,
    {
        proof {
            assert(string_views(parts@.take(i + 1)).drop_last() =~= string_views(parts@.take(i as int)));
            assert(string_views(parts@.take(i + 1)).last() == parts@[i as int]@);
        }
        if i > 0 {
            push_str(&mut out, sep);
        } else {
            assert(string_views(parts@.take(1)) =~= seq![parts@[0]@]);
        }
        push_str(&mut out, parts[i].as_str());
        i = i + 1;
    }
    assert(parts@.take(parts@.len() as int) =~= parts@);
    string_of(&out)
}

// ---------------------------------------------------------------------------
// Dependency boundaries
// ---------------------------------------------------------------------------

/// A dependency of a package as cargo metadata lists it: its name (where it
/// is a string) and its kind (`None` for a normal dependency).
#[derive(Debug, Clone)]
pub struct Dependency {
    pub name: Option<String>,
    pub kind: Option<String>,
}

/// A boundary rule: dependencies of `package` must not match `disallowed`,
/// except those whose name contains one of `allowed`.
#[derive(Debug, Clone)]
pub struct BoundaryRule {
    pub package: String,
    pub allowed: Vec<String>,
    pub disallowed: String,
}

/// Whether the dependency breaks the rule of `package`: a normal dependency
/// other than the package itself, allowed by no pattern, whose name the
/// disallowed pattern matches.
pub open spec fn breaks_boundary(d: Dependency, package: Seq<char>, allowed: Seq<Seq<char>>, disallowed: Seq<char>) -> bool {
    &&& (d.kind matches Some(k) ==> k@ == "normal"@)
    &&& d.name matches Some(n) && {
        &&& n@ != package
        &&& !(exists|j: int| 0 <= j < allowed.len() && contains(n@, #[trigger] allowed[j]))
        &&& regex_match_result(disallowed, n@)
    }
}

/// The names of the dependencies that break the rule, in order.
pub open spec fn boundary_violations_spec(deps: Seq<Dependency>, package: Seq<char>, allowed: Seq<Seq<char>>, disallowed: Seq<char>) -> Seq<Seq<char>>
    decreases deps.len(),
{
    if deps.len() == 0 {
        Seq::empty()
    } else {
        let rest = boundary_violations_spec(deps.drop_last(), package, allowed, disallowed);
        let d = deps.last();
        if breaks_boundary(d, package, allowed, disallowed) {
            rest.push(d.name->Some_0@)
        } else {
            rest
        }
    }
}

/// The dependencies of `package` that break its boundary rule, in order;
/// `None` where the disallowed pattern does not compile.
pub fn boundary_violations(rule: &BoundaryRule, deps: &Vec<Dependency>) -> (r: Option<Vec<String>>)
    ensures
        r is Some == regex_compiles(rule.disallowed@),
        r matches Some(v) ==> string_views(v@) == boundary_violations_spec(
            deps@,
            rule.package@,
            string_views(rule.allowed@),
            rule.disallowed@,
        ),
{
    let ghost allowed = string_views(rule.allowed@);
    match regex_is_match(rule.disallowed.as_str(), "") {
        None => {
            return None;
        },
        Some(_) => {},
    }
    let package = chars_of(rule.package.as_str());
    let normal = chars_of("normal");
    let mut out: Vec<String> = Vec::new();
    let mut i: usize = 0;
    while i < deps.len()
        invariant
            i <= deps@.len(),
            package@ == rule.package@,
            normal@ == "normal"@,
            regex_compiles(rule.disallowed@),
            allowed == string_views(rule.allowed@),
            string_views(out@) == boundary_violations_spec(deps@.take(i as int), rule.package@, allowed, rule.disallowed@),
        decreases deps@.len() - i,
    {
        proof {
            assert(deps@.take(i + 1).drop_last() =~= deps@.take(i as int));
        }
        let d = &deps[i];
        let kind_ok = match &d.kind {
            Some(k) => same_chars(&chars_of(k.as_str()), &normal),
            None => true,
        };
        if kind_ok {
            match &d.name {
                Some(n) => {
                    let nc = chars_of(n.as_str());
                    if !same_chars(&nc, &package) && !any_contained(n.as_str(), &rule.allowed) {
                        match regex_is_match(rule.disallowed.as_str(), n.as_str()) {
                            Some(true) => {
                                out.push(n.clone());
                                proof {
                                    assert(string_views(out@) =~= string_views(out@.drop_last()).push(n@));
                                }
                            },
                            _ => {},
                        }
                    }
                },
                None => {},
            }
        }
        i = i + 1;
    }
    assert(deps@.take(deps@.len() as int) =~= deps@);
    Some(out)
}

/// Whether `name` contains one of `patterns`.
fn any_contained(name: &str, patterns: &Vec<String>) -> (r: bool)
    ensures
        r == exists|j: int| 0 <= j < patterns@.len() && contains(name@, #[trigger] string_views(patterns@)[j]),
{
    let r = contains_any(name, patterns);
    assert(r == exists|j: int| 0 <= j < patterns@.len() && contains(name@, #[trigger] string_views(patterns@)[j])) by {
        if r {
            let j = choose|j: int| 0 <= j < patterns@.len() && contains(name@, (#[trigger] patterns@[j])@);
            assert(string_views(patterns@)[j] == patterns@[j]@);
        }
        if exists|j: int| 0 <= j < patterns@.len() && contains(name@, #[trigger] string_views(patterns@)[j]) {
            let j = choose|j: int| 0 <= j < patterns@.len() && contains(name@, #[trigger] string_views(patterns@)[j]);
            assert(string_views(patterns@)[j] == patterns@[j]@);
        }
    }
    r
}

/// A rule from literals.
fn rule(package: &str, allowed: &[&str], disallowed: &str) -> (r: BoundaryRule)
    ensures
        r.package@ == package@,
        string_views(r.allowed@) == allowed@.map_values(|s: &str| s@),
        r.disallowed@ == disallowed@,
{
    let mut v: Vec<String> = Vec::new();
    let mut i: usize = 0;
    while i < allowed.len()
        invariant
            i <= allowed@.len(),
            string_views(v@) == allowed@.take(i as int).map_values(|s: &str| s@),
        decreases allowed@.len() - i,
    {
        let ghost before = string_views(v@);
        v.push(allowed[i].to_string());
        proof {
            assert(string_views(v@) =~= before.push(allowed@[i as int]@));
            assert(allowed@.take(i + 1).map_values(|s: &str| s@) =~= allowed@.take(i as int).map_values(|s: &str| s@).push(allowed@[i as int]@));
        }
        i = i + 1;
    }
    assert(allowed@.take(allowed@.len() as int) =~= allowed@);
    BoundaryRule { package: package.to_string(), allowed: v, disallowed: disallowed.to_string() }
}

/// A boundary rule as plain values: package, allowed name parts, and the
/// disallowed pattern.
pub open spec fn boundary_rule_view(b: BoundaryRule) -> (Seq<char>, Seq<Seq<char>>, Seq<char>) {
    (b.package@, string_views(b.allowed@), b.disallowed@)
}

/// The architecture boundary rules, in the order they are checked.
pub open spec fn boundary_rules_spec() -> Seq<(Seq<char>, Seq<Seq<char>>, Seq<char>)> {
    seq![
        ("kernel"@, seq!["async-trait"@, "serde"@, "serde_json"@], r"^(storage_|runtime_|contracts_|counter-service|auth-service|tenant-service|user-service)"@),
        ("contracts_api"@, seq!["serde"@, "utoipa"@, "validator"@], r"^(kernel|storage_|runtime_|counter-service|auth-service|tenant-service|user-service)"@),
        ("contracts_auth"@, seq!["serde"@, "utoipa"@, "validator"@], r"^(kernel|storage_|runtime_|counter-service|tenant-service|user-service)"@),
        ("contracts_events"@, seq!["serde"@, "utoipa"@, "validator"@], r"^(kernel|storage_|runtime_|counter-service|auth-service|tenant-service|user-service)"@),
        ("contracts_errors"@, seq!["serde"@, "utoipa"@, "validator"@], r"^(kernel|storage_|runtime_|counter-service|auth-service|tenant-service|user-service)"@),
        ("counter-service"@, seq!["async-trait"@, "serde"@, "serde_json"@, "thiserror"@, "contracts_events"@, "contracts_errors"@, "kernel"@, "data"@], r"^(storage_|runtime_|auth-service|tenant-service|user-service)"@),
        ("auth-service"@, seq!["async-trait"@, "serde"@, "serde_json"@, "thiserror"@, "contracts_auth"@, "contracts_errors"@, "kernel"@, "data"@], r"^(storage_|runtime_|counter-service|tenant-service|user-service)"@),
        ("tenant-service"@, seq!["async-trait"@, "serde"@, "serde_json"@, "thiserror"@, "contracts_errors"@, "kernel"@, "data"@], r"^(storage_|runtime_|counter-service|auth-service|user-service)"@),
        ("user-service"@, seq!["async-trait"@, "serde"@, "serde_json"@, "thiserror"@, "contracts_errors"@, "kernel"@, "data"@], r"^(storage_|runtime_|counter-service|auth-service|tenant-service)"@),
    ]
}

/// The architecture boundary rules: services must not depend on other
/// services, contracts must not depend on runtime crates.
pub fn boundary_rules() -> (r: Vec<BoundaryRule>)
    ensures
        r@.map_values(|b: BoundaryRule| boundary_rule_view(b)) == boundary_rules_spec(),
{
    let mut r: Vec<BoundaryRule> = Vec::new();
    r.push(rule("kernel", &["async-trait", "serde", "serde_json"], r"^(storage_|runtime_|contracts_|counter-service|auth-service|tenant-service|user-service)"));
    r.push(rule("contracts_api", &["serde", "utoipa", "validator"], r"^(kernel|storage_|runtime_|counter-service|auth-service|tenant-service|user-service)"));
    r.push(rule("contracts_auth", &["serde", "utoipa", "validator"], r"^(kernel|storage_|runtime_|counter-service|tenant-service|user-service)"));
    r.push(rule("contracts_events", &["serde", "utoipa", "validator"], r"^(kernel|storage_|runtime_|counter-service|auth-service|tenant-service|user-service)"));
    r.push(rule("contracts_errors", &["serde", "utoipa", "validator"], r"^(kernel|storage_|runtime_|counter-service|auth-service|tenant-service|user-service)"));
    r.push(rule("counter-service", &["async-trait", "serde", "serde_json", "thiserror", "contracts_events", "contracts_errors", "kernel", "data"], r"^(storage_|runtime_|auth-service|tenant-service|user-service)"));
    r.push(rule("auth-service", &["async-trait", "serde", "serde_json", "thiserror", "contracts_auth", "contracts_errors", "kernel", "data"], r"^(storage_|runtime_|counter-service|tenant-service|user-service)"));
    r.push(rule("tenant-service", &["async-trait", "serde", "serde_json", "thiserror", "contracts_errors", "kernel", "data"], r"^(storage_|runtime_|counter-service|auth-service|user-service)"));
    r.push(rule("user-service", &["async-trait", "serde", "serde_json", "thiserror", "contracts_errors", "kernel", "data"], r"^(storage_|runtime_|counter-service|auth-service|tenant-service)"));
    assert(r@.map_values(|b: BoundaryRule| boundary_rule_view(b)) =~~= boundary_rules_spec());
    r
}

// ---------------------------------------------------------------------------
// Exported contract types and contract dependencies
// ---------------------------------------------------------------------------

/// Pattern of a public struct or enum declaration.
pub const CONTRACT_TYPE_PATTERN: &'static str = r"pub\s+(struct|enum)\s+(\w+)";

/// Pattern of a manifest line that depends on a contract crate.
pub const CONTRACT_DEP_PATTERN: &'static str = r"^\s*(contracts_\w+)\s*=";

/// Up to 200 characters of `content` before character `k`.
pub open spec fn context_before(content: Seq<char>, k: int) -> Seq<char> {
    let from = if k > 200 { k - 200 } else { 0 };
    content.subrange(from, k)
}

/// A declaration exports a contract type when the text just before it
/// (200 characters) mentions `ToSchema`.
pub open spec fn exported_at(content: Seq<char>, start: nat) -> bool {
    exists|k: int| byte_boundary(content, start as int, k) && contains(context_before(content, k), "ToSchema"@)
}

/// The exported contract type names, in the order they are declared.
pub open spec fn exported_types_spec(content: Seq<char>, caps: Seq<(nat, Option<Seq<char>>)>) -> Seq<Seq<char>>
    decreases caps.len(),
{
    if caps.len() == 0 {
        Seq::empty()
    } else {
        let rest = exported_types_spec(content, caps.drop_last());
        let c = caps.last();
        match c.1 {
            Some(name) => if exported_at(content, c.0) {
                rest.push(name)
            } else {
                rest
            },
            None => rest,
        }
    }
}

/// The contract types that a library source exports: the names of public
/// structs and enums declared within 200 characters after a `ToSchema`
/// mention. `None` where the declaration pattern does not compile.
pub fn exported_contract_types(content: &str) -> (r: Option<Vec<String>>)
    ensures
        r is Some == regex_compiles(CONTRACT_TYPE_PATTERN@),
        r matches Some(v) ==> string_views(v@) == exported_types_spec(
            content@,
            regex_captures_result(CONTRACT_TYPE_PATTERN@, content@, 2),
        ),
{
    let caps = match regex_captures(CONTRACT_TYPE_PATTERN, content, 2) {
        Some(c) => c,
        None => {
            return None;
        },
    };
    let ghost cv = capture_views(caps@);
    let c = chars_of(content);
    let marker = chars_of("ToSchema");
    let mut out: Vec<String> = Vec::new();
    let mut i: usize = 0;
    while i < caps.len()
        invariant
            i <= caps@.len(),
            cv == capture_views(caps@),
            c@ == content@,
            marker@ == "ToSchema"@,
            string_views(out@) == exported_types_spec(content@, cv.take(i as int)),
        decreases caps@.len() - i,
    {
        proof {
            assert(cv.take(i + 1).drop_last() =~= cv.take(i as int));
            assert(cv.take(i + 1).last() == cv[i as int]);
        }
        match &caps[i].1 {
            Some(name) => {
                let found = match crate::text::char_index_at_byte(&c, caps[i].0) {
                    Some(k) => {
                        let from: usize = if k > 200 { k - 200 } else { 0 };
                        let ctx = slice(&c, from, k);
                        let hit = contains_chars(&ctx, &marker);
                        proof {
                            assert(ctx@ == context_before(content@, k as int));
                            if !hit {
                                assert forall|k2: int| byte_boundary(content@, caps@[i as int].0 as int, k2)
                                    implies !contains(context_before(content@, k2), "ToSchema"@) by {
                                    crate::text::lemma_byte_boundary_unique(content@, caps@[i as int].0 as int, k as int, k2);
                                }
                            }
                        }
                        hit
                    },
                    None => false,
                };
                if found {
                    out.push(name.clone());
                    proof {
                        assert(string_views(out@) =~= string_views(out@.drop_last()).push(name@));
                    }
                }
            },
            None => {},
        }
        i = i + 1;
    }
    assert(cv.take(caps@.len() as int) =~= cv);
    Some(out)
}

/// The contract crates a manifest's lines depend on, in line order.
pub open spec fn contract_deps_spec(ls: Seq<Seq<char>>) -> Seq<Seq<char>>
    decreases ls.len(),
{
    if ls.len() == 0 {
        Seq::empty()
    } else {
        let rest = contract_deps_spec(ls.drop_last());
        match first_capture(CONTRACT_DEP_PATTERN@, ls.last(), 1) {
            Some(d) => rest.push(d),
            None => rest,
        }
    }
}

/// The contract crates that a manifest depends on, one per matching line,
/// in line order; `None` where the pattern does not compile.
pub fn contract_dependencies(manifest: &str) -> (r: Option<Vec<String>>)
    ensures
        r is Some == regex_compiles(CONTRACT_DEP_PATTERN@),
        r matches Some(v) ==> string_views(v@) == contract_deps_spec(lines(manifest@)),
{
    let ls = split_lines(&chars_of(manifest));
    let ghost lv = lines(manifest@);
    let mut out: Vec<String> = Vec::new();
    let mut i: usize = 0;
    match regex_first_capture(CONTRACT_DEP_PATTERN, "", 1) {
        None => {
            return None;
        },
        Some(_) => {},
    }
    while i < ls.len()
        invariant
            i <= ls@.len(),
            lv == lines(manifest@),
            ls@.len() == lv.len(),
            forall|k: int| 0 <= k < ls@.len() ==> #[trigger] ls@[k]@ == lv[k],
            regex_compiles(CONTRACT_DEP_PATTERN@),
            string_views(out@) == contract_deps_spec(lv.take(i as int)),
        decreases ls@.len() - i,
    {
        proof {
            assert(lv.take(i + 1).drop_last() =~= lv.take(i as int));
            assert(lv.take(i + 1).last() == ls@[i as int]@);
        }
        let line = string_of(&ls[i]);
        match regex_first_capture(CONTRACT_DEP_PATTERN, line.as_str(), 1) {
            Some(Some(d)) => {
                out.push(d);
                proof {
                    assert(string_views(out@) =~= string_views(out@.drop_last()).push(out@.last()@));
                }
            },
            _ => {},
        }
        i = i + 1;
    }
    assert(lv.take(ls@.len() as int) =~= lv);
    Some(out)
}

/// The contract crates a server's manifest depends on, sorted and without
/// duplicates.
pub fn server_contract_dependencies(manifest: &str) -> (r: Option<Vec<String>>)
    ensures
        r is Some == regex_compiles(CONTRACT_DEP_PATTERN@),
        r matches Some(v) ==> strictly_sorted(string_views(v@)) && string_views(v@).to_set()
            == contract_deps_spec(lines(manifest@)).to_set(),
{
    match contract_dependencies(manifest) {
        Some(d) => Some(sorted_unique(&d)),
        None => None,
    }
}

/// The strings sorted, each once.
pub fn sorted_unique(deps: &Vec<String>) -> (r: Vec<String>)
    ensures
        strictly_sorted(string_views(r@)),
        string_views(r@).to_set() == string_views(deps@).to_set(),
{
    let mut items: Vec<Vec<char>> = Vec::new();
    let mut i: usize = 0;
    while i < deps.len()
        invariant
            i <= deps@.len(),
            views(items@) == string_views(deps@.take(i as int)),
        decreases deps@.len() - i,
    {
        let ghost before = views(items@);
        items.push(chars_of(deps[i].as_str()));
        proof {
            assert(views(items@) =~= before.push(deps@[i as int]@));
            assert(string_views(deps@.take(i + 1)) =~= string_views(deps@.take(i as int)).push(deps@[i as int]@));
        }
        i = i + 1;
    }
    assert(deps@.take(deps@.len() as int) =~= deps@);
    let sorted = sort_dedup(items);
    let mut out: Vec<String> = Vec::new();
    let mut k: usize = 0;
    while k < sorted.len()
        invariant
            k <= sorted@.len(),
            string_views(out@) == views(sorted@).take(k as int),
        decreases sorted@.len() - k,
    {
        let ghost before = string_views(out@);
        out.push(string_of(&sorted[k]));
        proof {
            assert(string_views(out@) =~= before.push(sorted@[k as int]@));
            assert(views(sorted@).take(k + 1) =~= views(sorted@).take(k as int).push(sorted@[k as int]@));
        }
        k = k + 1;
    }
    assert(views(sorted@).take(sorted@.len() as int) =~= views(sorted@));
    out
}

// ---------------------------------------------------------------------------
// Contract coverage
// ---------------------------------------------------------------------------

/// A contract crate: its package name, its path and the types it exports.
#[derive(Debug, Clone)]
pub struct ContractCrate {
    pub name: String,
    pub path: String,
    pub exported_types: Vec<String>,
}

/// A server module and what was found in it. `static_openapi` is the text of
/// its `openapi.yaml` where that could be read; `handler_sources` the texts
/// of its handler sources.
#[derive(Debug, Clone)]
pub struct ServerModule {
    pub name: String,
    pub path: String,
    pub has_openapi: bool,
    pub has_runtime_openapi: bool,
    pub has_handlers: bool,
    pub has_routes: bool,
    pub contract_dependencies: Vec<String>,
    pub static_openapi: Option<String>,
    pub handler_sources: Vec<String>,
}

/// What the contract-coverage validation looks at.
#[derive(Debug, Clone)]
pub struct ContractFacts {
    /// `docs/contracts/api-routes.yaml` exists.
    pub api_routes_doc: bool,
    /// `packages/contracts/generated/api` exists.
    pub retired_api_bindings: bool,
    /// Text of the generated web-bff OpenAPI document, where it exists.
    pub web_bff_openapi: Option<String>,
    pub crates: Vec<ContractCrate>,
    pub servers: Vec<ServerModule>,
    /// Each contract crate depended on by workspace manifests, with its consumers.
    pub workspace_usage: Vec<(String, Vec<String>)>,
}

/// Some server depends on the crate `name`.
pub open spec fn depended_by_server(servers: Seq<ServerModule>, name: Seq<char>) -> bool {
    exists|i: int, j: int|
        0 <= i < servers.len() && 0 <= j < servers[i].contract_dependencies@.len()
            && (#[trigger] servers[i].contract_dependencies@[j])@ == name
}

/// Some workspace manifest depends on the crate `name`.
pub open spec fn has_consumers(usage: Seq<(String, Vec<String>)>, name: Seq<char>) -> bool {
    exists|i: int| 0 <= i < usage.len() && (#[trigger] usage[i]).0@ == name && usage[i].1@.len() > 0
}

pub open spec fn unused_crate_message(name: Seq<char>) -> Seq<char> {
    "contract crate '"@ + name + "' is not directly depended on by any workspace crate"@
}

/// Findings for contract crates nothing depends on, in crate order.
pub open spec fn crate_findings(crates: Seq<ContractCrate>, servers: Seq<ServerModule>, usage: Seq<(String, Vec<String>)>) -> Seq<(bool, Seq<char>, Seq<char>)>
    decreases crates.len(),
{
    if crates.len() == 0 {
        Seq::empty()
    } else {
        let rest = crate_findings(crates.drop_last(), servers, usage);
        let c = crates.last();
        if !depended_by_server(servers, c.name@) && !has_consumers(usage, c.name@) {
            rest.push((false, c.path@, unused_crate_message(c.name@)))
        } else {
            rest
        }
    }
}

proof fn lemma_used_crates_not_reported(crates: Seq<ContractCrate>, servers: Seq<ServerModule>, usage: Seq<(String, Vec<String>)>)
    requires
        forall|i: int|
            0 <= i < crates.len() ==> depended_by_server(servers, (#[trigger] crates[i]).name@)
                || has_consumers(usage, crates[i].name@),
    ensures
        crate_findings(crates, servers, usage).len() == 0,
    decreases crates.len(),
{
    if crates.len() > 0 {
        let c = crates[crates.len() - 1];
        assert(depended_by_server(servers, c.name@) || has_consumers(usage, c.name@));
        lemma_used_crates_not_reported(crates.drop_last(), servers, usage);
    }
}

/// A contract crate is reported as unused only when nothing depends on it:
/// crates that some server depends on, or that some workspace manifest
/// consumes, give no unused-crate findings at all.
pub proof fn law_used_crates_not_reported(crates: Seq<ContractCrate>, servers: Seq<ServerModule>, usage: Seq<(String, Vec<String>)>)
    requires
        forall|i: int|
            0 <= i < crates.len() ==> (exists|s: int, j: int|
                0 <= s < servers.len() && 0 <= j < servers[s].contract_dependencies@.len()
                    && servers[s].contract_dependencies@[j]@ == (#[trigger] crates[i]).name@) || (exists|u: int|
                0 <= u < usage.len() && usage[u].0@ == crates[i].name@ && usage[u].1@.len() > 0),
    ensures
        crate_findings(crates, servers, usage).len() == 0,
{
    assert forall|i: int| 0 <= i < crates.len() implies depended_by_server(servers, (#[trigger] crates[i]).name@)
        || has_consumers(usage, crates[i].name@) by {
        if exists|s: int, j: int|
            0 <= s < servers.len() && 0 <= j < servers[s].contract_dependencies@.len()
                && servers[s].contract_dependencies@[j]@ == crates[i].name@ {
            let (s, j) = choose|s: int, j: int|
                0 <= s < servers.len() && 0 <= j < servers[s].contract_dependencies@.len()
                    && servers[s].contract_dependencies@[j]@ == crates[i].name@;
            assert(servers[s].contract_dependencies@[j]@ == crates[i].name@);
        } else {
            let u = choose|u: int|
                0 <= u < usage.len() && usage[u].0@ == crates[i].name@ && usage[u].1@.len() > 0;
            assert(usage[u].0@ == crates[i].name@);
        }
    }
    lemma_used_crates_not_reported(crates, servers, usage);
}

/// A contract crate that no server depends on and no workspace manifest
/// consumes is reported, at its path and as a warning.
pub proof fn law_unused_crate_reported(crates: Seq<ContractCrate>, servers: Seq<ServerModule>, usage: Seq<(String, Vec<String>)>, k: int)
    requires
        0 <= k < crates.len(),
        forall|s: int, j: int|
            0 <= s < servers.len() && 0 <= j < servers[s].contract_dependencies@.len() ==> (
            #[trigger] servers[s].contract_dependencies@[j])@ != crates[k].name@,
        forall|u: int| 0 <= u < usage.len() && (#[trigger] usage[u]).0@ == crates[k].name@ ==> usage[u].1@.len() == 0,
    ensures
        crate_findings(crates, servers, usage).contains(
            (false, crates[k].path@, "contract crate '"@ + crates[k].name@ + "' is not directly depended on by any workspace crate"@),
        ),
    decreases crates.len(),
{
    if k == crates.len() - 1 {
        let rest = crate_findings(crates.drop_last(), servers, usage);
        let f = (false, crates[k].path@, unused_crate_message(crates[k].name@));
        assert(!depended_by_server(servers, crates[k].name@));
        assert(!has_consumers(usage, crates[k].name@));
        assert(crate_findings(crates, servers, usage) == rest.push(f));
        assert(rest.push(f)[rest.len() as int] == f);
    } else {
        assert(crates.drop_last()[k] == crates[k]);
        law_unused_crate_reported(crates.drop_last(), servers, usage, k);
        let rest = crate_findings(crates.drop_last(), servers, usage);
        let f = (false, crates[k].path@, unused_crate_message(crates[k].name@));
        let i = choose|i: int| 0 <= i < rest.len() && rest[i] == f;
        let c = crates.last();
        if !depended_by_server(servers, c.name@) && !has_consumers(usage, c.name@) {
            let g = (false, c.path@, unused_crate_message(c.name@));
            assert(rest.push(g)[i] == f);
        }
    }
}

pub open spec fn missing_openapi_message() -> Seq<char> {
    "has handlers but missing openapi documentation (static or runtime via /scalar)"@
}

pub open spec fn no_contracts_message() -> Seq<char> {
    "has handlers but does not depend on any contracts_* crate \u{2014} verify this is intentional"@
}

pub open spec fn empty_paths_message() -> Seq<char> {
    "openapi.yaml has empty paths section but handlers exist \u{2014} consider documenting endpoints"@
}

pub open spec fn unreadable_openapi_message() -> Seq<char> {
    "openapi.yaml exists but could not be read"@
}

/// The documentation findings of one server.
pub open spec fn server_doc_findings(s: ServerModule, strict: bool) -> Seq<(bool, Seq<char>, Seq<char>)> {
    let a: Seq<(bool, Seq<char>, Seq<char>)> = if s.has_handlers && !s.has_openapi {
        seq![(strict, s.path@, missing_openapi_message())]
    } else {
        Seq::empty()
    };
    let b: Seq<(bool, Seq<char>, Seq<char>)> = if s.has_handlers && s.contract_dependencies@.len() == 0 {
        seq![(false, s.path@, no_contracts_message())]
    } else {
        Seq::empty()
    };
    let c: Seq<(bool, Seq<char>, Seq<char>)> = if s.has_runtime_openapi || !s.has_openapi {
        Seq::empty()
    } else {
        match s.static_openapi {
            Some(text) => if (contains(text@, "paths: {}"@) || contains(text@, "paths:{}"@)) && s.has_handlers {
                seq![(false, s.path@, empty_paths_message())]
            } else {
                Seq::empty()
            },
            None => seq![(strict, s.path@, unreadable_openapi_message())],
        }
    };
    a + b + c
}

/// The documentation findings of all servers, in order.
pub open spec fn doc_findings(servers: Seq<ServerModule>, strict: bool) -> Seq<(bool, Seq<char>, Seq<char>)>
    decreases servers.len(),
{
    if servers.len() == 0 {
        Seq::empty()
    } else {
        doc_findings(servers.drop_last(), strict) + server_doc_findings(servers.last(), strict)
    }
}

/// One of the server's handler sources mentions a type exported by one of
/// the contract crates.
pub open spec fn uses_contract_types(s: ServerModule, crates: Seq<ContractCrate>) -> bool {
    exists|h: int, k: int, t: int|
        0 <= h < s.handler_sources@.len() && 0 <= k < crates.len() && 0 <= t
            < crates[k].exported_types@.len() && contains(
            (#[trigger] s.handler_sources@[h])@,
            (#[trigger] crates[k].exported_types@[t])@,
        )
}

pub open spec fn unused_dependencies_message(deps: Seq<Seq<char>>) -> Seq<char> {
    "depends on contracts but may not use exported types: "@ + join(deps, ", "@)
}

/// The finding of a server with handlers that depends on contract crates
/// without mentioning any exported type.
pub open spec fn server_usage_findings(s: ServerModule, crates: Seq<ContractCrate>) -> Seq<(bool, Seq<char>, Seq<char>)> {
    if s.has_handlers && s.contract_dependencies@.len() > 0 && !uses_contract_types(s, crates) {
        seq![(false, s.path@, unused_dependencies_message(string_views(s.contract_dependencies@)))]
    } else {
        Seq::empty()
    }
}

/// The usage findings of all servers, in order.
pub open spec fn usage_findings(servers: Seq<ServerModule>, crates: Seq<ContractCrate>) -> Seq<(bool, Seq<char>, Seq<char>)>
    decreases servers.len(),
{
    if servers.len() == 0 {
        Seq::empty()
    } else {
        usage_findings(servers.drop_last(), crates) + server_usage_findings(servers.last(), crates)
    }
}

pub open spec fn api_routes_path() -> Seq<char> {
    "docs/contracts/api-routes.yaml"@
}

pub open spec fn api_routes_message() -> Seq<char> {
    "hand-written canonical OpenAPI YAML is not allowed; generate packages/contracts/generated/openapi/web-bff.openapi.yaml from Rust/Axum sources"@
}

pub open spec fn retired_api_path() -> Seq<char> {
    "packages/contracts/generated/api"@
}

pub open spec fn retired_api_message() -> Seq<char> {
    "HTTP API TypeScript generated artifacts are retired; use generated OpenAPI instead"@
}

pub open spec fn web_bff_openapi_path() -> Seq<char> {
    "packages/contracts/generated/openapi/web-bff.openapi.yaml"@
}

pub open spec fn openapi_version_message() -> Seq<char> {
    "generated web-bff OpenAPI artifact must use OpenAPI 3.1.0"@
}

pub open spec fn missing_artifact_message() -> Seq<char> {
    "missing generated web-bff OpenAPI artifact; run just typegen"@
}

/// The findings about the generated and hand-written API documents.
pub open spec fn artifact_findings(f: ContractFacts, strict: bool) -> Seq<(bool, Seq<char>, Seq<char>)> {
    let a: Seq<(bool, Seq<char>, Seq<char>)> = if f.api_routes_doc {
        seq![(strict, api_routes_path(), api_routes_message())]
    } else {
        Seq::empty()
    };
    let b: Seq<(bool, Seq<char>, Seq<char>)> = if f.retired_api_bindings {
        seq![(strict, retired_api_path(), retired_api_message())]
    } else {
        Seq::empty()
    };
    let c: Seq<(bool, Seq<char>, Seq<char>)> = match f.web_bff_openapi {
        Some(text) => if !contains(text@, "openapi: 3.1.0"@) {
            seq![(strict, web_bff_openapi_path(), openapi_version_message())]
        } else {
            Seq::empty()
        },
        None => seq![(strict, web_bff_openapi_path(), missing_artifact_message())],
    };
    a + b + c
}

/// All findings of the contract-coverage validation, in the order they are
/// reported. `strict` makes the severe ones errors.
pub open spec fn contract_findings_spec(f: ContractFacts, strict: bool) -> Seq<(bool, Seq<char>, Seq<char>)> {
    artifact_findings(f, strict) + crate_findings(f.crates@, f.servers@, f.workspace_usage@)
        + doc_findings(f.servers@, strict) + usage_findings(f.servers@, f.crates@)
}

proof fn lemma_quiet_servers(servers: Seq<ServerModule>, crates: Seq<ContractCrate>, strict: bool)
    requires
        forall|i: int|
            0 <= i < servers.len() ==> !(#[trigger] servers[i]).has_handlers && (servers[i].has_runtime_openapi
                || !servers[i].has_openapi),
    ensures
        doc_findings(servers, strict).len() == 0,
        usage_findings(servers, crates).len() == 0,
    decreases servers.len(),
{
    if servers.len() > 0 {
        let s = servers[servers.len() - 1];
        assert(!s.has_handlers && (s.has_runtime_openapi || !s.has_openapi));
        lemma_quiet_servers(servers.drop_last(), crates, strict);
        assert(server_doc_findings(s, strict) =~= Seq::<(bool, Seq<char>, Seq<char>)>::empty());
    }
}

/// A clean workspace passes the contract-coverage validation with no
/// findings: no hand-written route document, no retired bindings, a
/// generated web-bff OpenAPI document of version 3.1.0, every contract crate
/// depended on by a server or consumed by a workspace manifest, and servers
/// without handlers whose OpenAPI, if any, is served at runtime.
pub proof fn law_clean_contracts_pass(f: ContractFacts, strict: bool)
    requires
        !f.api_routes_doc,
        !f.retired_api_bindings,
        f.web_bff_openapi matches Some(t) && contains(t@, "openapi: 3.1.0"@),
        forall|i: int|
            0 <= i < f.crates@.len() ==> depended_by_server(f.servers@, (#[trigger] f.crates@[i]).name@)
                || has_consumers(f.workspace_usage@, f.crates@[i].name@),
        forall|i: int|
            0 <= i < f.servers@.len() ==> !(#[trigger] f.servers@[i]).has_handlers && (
            f.servers@[i].has_runtime_openapi || !f.servers@[i].has_openapi),
    ensures
        contract_findings_spec(f, strict).len() == 0,
{
    lemma_used_crates_not_reported(f.crates@, f.servers@, f.workspace_usage@);
    lemma_quiet_servers(f.servers@, f.crates@, strict);
    assert(artifact_findings(f, strict).len() == 0);
}

/// A missing generated web-bff OpenAPI document is always reported, at its
/// path, with the mode's severity.
pub proof fn law_missing_openapi_artifact_reported(f: ContractFacts, strict: bool)
    requires
        f.web_bff_openapi is None,
    ensures
        contract_findings_spec(f, strict).contains(
            (strict, web_bff_openapi_path(), missing_artifact_message()),
        ),
{
    let a = artifact_findings(f, strict);
    let x = (strict, web_bff_openapi_path(), missing_artifact_message());
    assert(a[a.len() - 1] == x);
    let all = contract_findings_spec(f, strict);
    assert(all == a + (crate_findings(f.crates@, f.servers@, f.workspace_usage@) + doc_findings(
        f.servers@,
        strict,
    ) + usage_findings(f.servers@, f.crates@)));
    assert(all[a.len() - 1] == x);
}

/// Appends a finding.
fn push_flag(out: &mut Vec<Flagged>, error: bool, scope: &str, message: &str)
    ensures
        flagged_views(final(out)@) == flagged_views(old(out)@).push((error, scope@, message@)),
{
    out.push(crate::report::flag(error, scope, message));
    proof {
        assert(flagged_views(out@) =~= flagged_views(old(out)@).push((error, scope@, message@)));
    }
}

/// Whether some server depends on the crate `name`.
fn server_depends(servers: &Vec<ServerModule>, name: &str) -> (r: bool)
    ensures
        r == depended_by_server(servers@, name@),
{
    let mut i: usize = 0;
    while i < servers.len()
        invariant
            i <= servers@.len(),
            forall|a: int, j: int|
                0 <= a < i && 0 <= j < servers@[a].contract_dependencies@.len() ==> (
                #[trigger] servers@[a].contract_dependencies@[j])@ != name@,
        decreases servers@.len() - i,
    {
        if vec_has(&servers[i].contract_dependencies, name) {
            return true;
        }
        i = i + 1;
    }
    false
}

/// Whether some workspace manifest depends on the crate `name`.
fn consumed(usage: &Vec<(String, Vec<String>)>, name: &str) -> (r: bool)
    ensures
        r == has_consumers(usage@, name@),
{
    let c = chars_of(name);
    let mut i: usize = 0;
    while i < usage.len()
        invariant
            i <= usage@.len(),
            c@ == name@,
            forall|a: int| 0 <= a < i ==> !((#[trigger] usage@[a]).0@ == name@ && usage@[a].1@.len() > 0),
        decreases usage@.len() - i,
    {
        if usage[i].1.len() > 0 && same_chars(&chars_of(usage[i].0.as_str()), &c) {
            return true;
        }
        i = i + 1;
    }
    false
}

/// Whether one of the server's handler sources mentions an exported type.
fn mentions_contract_type(s: &ServerModule, crates: &Vec<ContractCrate>) -> (r: bool)
    ensures
        r == uses_contract_types(*s, crates@),
{
    let mut h: usize = 0;
    while h < s.handler_sources.len()
        invariant
            h <= s.handler_sources@.len(),
            forall|a: int, k: int, t: int|
                0 <= a < h && 0 <= k < crates@.len() && 0 <= t < crates@[k].exported_types@.len()
                    ==> !contains((#[trigger] s.handler_sources@[a])@, (#[trigger] crates@[k].exported_types@[t])@),
        decreases s.handler_sources@.len() - h,
    {
        let mut k: usize = 0;
        while k < crates.len()
            invariant
                h < s.handler_sources@.len(),
                k <= crates@.len(),
                forall|a: int, k2: int, t: int|
                    0 <= a < h && 0 <= k2 < crates@.len() && 0 <= t < crates@[k2].exported_types@.len()
                        ==> !contains((#[trigger] s.handler_sources@[a])@, (#[trigger] crates@[k2].exported_types@[t])@),
                forall|k2: int, t: int|
                    0 <= k2 < k && 0 <= t < crates@[k2].exported_types@.len()
                        ==> !contains(s.handler_sources@[h as int]@, (#[trigger] crates@[k2].exported_types@[t])@),
            decreases crates@.len() - k,
        {
            if contains_any(s.handler_sources[h].as_str(), &crates[k].exported_types) {
                return true;
            }
            k = k + 1;
        }
        h = h + 1;
    }
    false
}

/// Appends the documentation findings of one server.
fn push_server_doc_findings(out: &mut Vec<Flagged>, s: &ServerModule, strict: bool)
    ensures
        flagged_views(final(out)@) == flagged_views(old(out)@) + server_doc_findings(*s, strict),
{
    let ghost before = flagged_views(out@);
    let path = s.path.as_str();
    if s.has_handlers && !s.has_openapi {
        push_flag(out, strict, path, "has handlers but missing openapi documentation (static or runtime via /scalar)");
    }
    if s.has_handlers && s.contract_dependencies.len() == 0 {
        push_flag(out, false, path, "has handlers but does not depend on any contracts_* crate \u{2014} verify this is intentional");
    }
    if !(s.has_runtime_openapi || !s.has_openapi) {
        match &s.static_openapi {
            Some(text) => {
                let t = chars_of(text.as_str());
                if (contains_chars(&t, &chars_of("paths: {}")) || contains_chars(&t, &chars_of("paths:{}"))) && s.has_handlers {
                    push_flag(out, false, path, "openapi.yaml has empty paths section but handlers exist \u{2014} consider documenting endpoints");
                }
            },
            None => {
                push_flag(out, strict, path, "openapi.yaml exists but could not be read");
            },
        }
    }
    proof {
        assert(flagged_views(out@) =~= before + server_doc_findings(*s, strict));
    }
}

/// The findings of the contract-coverage validation, in the order they are
/// reported: generated and hand-written API documents, contract crates that
/// nothing depends on, servers' documentation, and servers that depend on
/// contract crates without using their types.
pub fn contract_findings(facts: &ContractFacts, strict: bool) -> (r: Vec<Flagged>)
    ensures
        flagged_views(r@) == contract_findings_spec(*facts, strict),
{
    let mut out: Vec<Flagged> = Vec::new();
    if facts.api_routes_doc {
        push_flag(&mut out, strict, "docs/contracts/api-routes.yaml", "hand-written canonical OpenAPI YAML is not allowed; generate packages/contracts/generated/openapi/web-bff.openapi.yaml from Rust/Axum sources");
    }
    if facts.retired_api_bindings {
        push_flag(&mut out, strict, "packages/contracts/generated/api", "HTTP API TypeScript generated artifacts are retired; use generated OpenAPI instead");
    }
    match &facts.web_bff_openapi {
        Some(text) => {
            if !contains_chars(&chars_of(text.as_str()), &chars_of("openapi: 3.1.0")) {
                push_flag(&mut out, strict, "packages/contracts/generated/openapi/web-bff.openapi.yaml", "generated web-bff OpenAPI artifact must use OpenAPI 3.1.0");
            }
        },
        None => {
            push_flag(&mut out, strict, "packages/contracts/generated/openapi/web-bff.openapi.yaml", "missing generated web-bff OpenAPI artifact; run just typegen");
        },
    }
    assert(flagged_views(out@) =~= artifact_findings(*facts, strict));
    let ghost base = flagged_views(out@);
    let mut i: usize = 0;
    while i < facts.crates.len()
        invariant
            i <= facts.crates@.len(),
            flagged_views(out@) == base + crate_findings(facts.crates@.take(i as int), facts.servers@, facts.workspace_usage@),
        decreases facts.crates@.len() - i,
    {
        proof {
            assert(facts.crates@.take(i + 1).drop_last() =~= facts.crates@.take(i as int));
        }
        let c = &facts.crates[i];
        if !server_depends(&facts.servers, c.name.as_str()) && !consumed(&facts.workspace_usage, c.name.as_str()) {
            let mut m = chars_of("contract crate '");
            push_str(&mut m, c.name.as_str());
            push_str(&mut m, "' is not directly depended on by any workspace crate");
            let ghost before = flagged_views(out@);
            out.push(Flagged { error: false, scope: c.path.clone(), message: string_of(&m) });
            proof {
                assert(flagged_views(out@) =~= before.push((false, c.path@, unused_crate_message(c.name@))));
            }
        }
        i = i + 1;
    }
    assert(facts.crates@.take(facts.crates@.len() as int) =~= facts.crates@);
    let ghost base2 = flagged_views(out@);
    let mut j: usize = 0;
    while j < facts.servers.len()
        invariant
            j <= facts.servers@.len(),
            flagged_views(out@) == base2 + doc_findings(facts.servers@.take(j as int), strict),
        decreases facts.servers@.len() - j,
    {
        proof {
            assert(facts.servers@.take(j + 1).drop_last() =~= facts.servers@.take(j as int));
        }
        push_server_doc_findings(&mut out, &facts.servers[j], strict);
        j = j + 1;
    }
    assert(facts.servers@.take(facts.servers@.len() as int) =~= facts.servers@);
    let ghost base3 = flagged_views(out@);
    let mut k: usize = 0;
    while k < facts.servers.len()
        invariant
            k <= facts.servers@.len(),
            flagged_views(out@) == base3 + usage_findings(facts.servers@.take(k as int), facts.crates@),
        decreases facts.servers@.len() - k,
    {
        proof {
            assert(facts.servers@.take(k + 1).drop_last() =~= facts.servers@.take(k as int));
        }
        let s = &facts.servers[k];
        let ghost before = flagged_views(out@);
        if s.has_handlers && s.contract_dependencies.len() > 0 && !mentions_contract_type(s, &facts.crates) {
            let mut m = chars_of("depends on contracts but may not use exported types: ");
            let joined = join_strings(&s.contract_dependencies, ", ");
            push_str(&mut m, joined.as_str());
            out.push(Flagged { error: false, scope: s.path.clone(), message: string_of(&m) });
            proof {
                assert(flagged_views(out@) =~= before.push((false, s.path@, unused_dependencies_message(string_views(s.contract_dependencies@)))));
            }
        }
        proof {
            assert(flagged_views(out@) =~= before + server_usage_findings(*s, facts.crates@));
        }
        k = k + 1;
    }
    assert(facts.servers@.take(facts.servers@.len() as int) =~= facts.servers@);
    out
}

/// Copies of strings, keeping their views.
pub fn copy_strings(v: &Vec<String>) -> (r: Vec<String>)
    ensures
        string_views(r@) == string_views(v@),
{
    let mut r: Vec<String> = Vec::new();
    let mut i: usize = 0;
    while i < v.len()
        invariant
            i <= v@.len(),
            string_views(r@) == string_views(v@.take(i as int)),
        decreases v@.len() - i,
    {
        let ghost before = string_views(r@);
        r.push(v[i].clone());
        proof {
            assert(string_views(r@) =~= before.push(v@[i as int]@));
            assert(string_views(v@.take(i + 1)) =~= string_views(v@.take(i as int)).push(v@[i as int]@));
        }
        i = i + 1;
    }
    assert(v@.take(v@.len() as int) =~= v@);
    r
}

/// A contract crate as plain values.
pub open spec fn crate_view(c: ContractCrate) -> (Seq<char>, Seq<char>, Seq<Seq<char>>) {
    (c.name@, c.path@, string_views(c.exported_types@))
}

/// The names of a list of crates.
pub open spec fn crate_names(v: Seq<ContractCrate>) -> Seq<Seq<char>> {
    v.map_values(|c: ContractCrate| c.name@)
}

/// The contract crates sorted by name; crates of the same name keep their
/// order.
pub fn sort_crates(crates: &Vec<ContractCrate>) -> (r: Vec<ContractCrate>)
    ensures
        exists|order: Seq<usize>|
            stable_order(crate_names(crates@), order) && r@.len() == order.len()
                && forall|i: int| 0 <= i < order.len() ==> crate_view(#[trigger] r@[i]) == crate_view(crates@[order[i] as int]),
{
    let mut keys: Vec<Vec<char>> = Vec::new();
    let mut i: usize = 0;
    while i < crates.len()
        invariant
            i <= crates@.len(),
            views(keys@) == crate_names(crates@.take(i as int)),
        decreases crates@.len() - i,
    {
        let ghost before = views(keys@);
        keys.push(chars_of(crates[i].name.as_str()));
        proof {
            assert(views(keys@) =~= before.push(crates@[i as int].name@));
            assert(crate_names(crates@.take(i + 1)) =~= crate_names(crates@.take(i as int)).push(crates@[i as int].name@));
        }
        i = i + 1;
    }
    assert(crates@.take(crates@.len() as int) =~= crates@);
    let order = sorted_order(&keys);
    let mut r: Vec<ContractCrate> = Vec::new();
    let mut k: usize = 0;
    while k < order.len()
        invariant
            k <= order@.len(),
            stable_order(crate_names(crates@), order@),
            r@.len() == k,
            forall|a: int| 0 <= a < k ==> crate_view(#[trigger] r@[a]) == crate_view(crates@[order@[a] as int]),
        decreases order@.len() - k,
    {
        let c = &crates[order[k]];
        r.push(ContractCrate { name: c.name.clone(), path: c.path.clone(), exported_types: copy_strings(&c.exported_types) });
        k = k + 1;
    }
    r
}

/// A server source serves its OpenAPI document at run time when it mentions
/// `utoipa_scalar`, `Scalar::new` or the `"/scalar"` route.
pub open spec fn serves_runtime_openapi_spec(content: Seq<char>) -> bool {
    contains(content, "utoipa_scalar"@) || contains(content, "Scalar::new"@) || contains(content, "\"/scalar\""@)
}

/// Whether a server source serves its OpenAPI document at run time.
pub fn serves_runtime_openapi(content: &str) -> (r: bool)
    ensures
        r == serves_runtime_openapi_spec(content@),
{
    let c = chars_of(content);
    contains_chars(&c, &chars_of("utoipa_scalar")) || contains_chars(&c, &chars_of("Scalar::new"))
        || contains_chars(&c, &chars_of("\"/scalar\""))
}

/// Whether a file of a handlers directory is a handler: a `.rs` file other
/// than `.gitkeep`.
pub fn is_handler_file(name: &str) -> (r: bool)
    ensures
        r == (name@ != ".gitkeep"@ && has_suffix(name@, ".rs"@)),
{
    let n = chars_of(name);
    !same_chars(&n, &chars_of(".gitkeep")) && ends_with(&n, &chars_of(".rs"))
}

/// Whether a source file says it was generated.
pub fn marks_generated(content: &str) -> (r: bool)
    ensures
        r == contains(content@, "This file was generated"@),
{
    contains_chars(&chars_of(content), &chars_of("This file was generated"))
}

/// The strings in the order a stable sort by text puts them.
pub fn sort_strings(v: &Vec<String>) -> (r: Vec<String>)
    ensures
        exists|order: Seq<usize>|
            stable_order(string_views(v@), order) && r@.len() == order.len()
                && forall|i: int| 0 <= i < order.len() ==> (#[trigger] r@[i])@ == v@[order[i] as int]@,
{
    let mut keys: Vec<Vec<char>> = Vec::new();
    let mut i: usize = 0;
    while i < v.len()
        invariant
            i <= v@.len(),
            views(keys@) == string_views(v@.take(i as int)),
        decreases v@.len() - i,
    {
        let ghost before = views(keys@);
        keys.push(chars_of(v[i].as_str()));
        proof {
            assert(views(keys@) =~= before.push(v@[i as int]@));
            assert(string_views(v@.take(i + 1)) =~= string_views(v@.take(i as int)).push(v@[i as int]@));
        }
        i = i + 1;
    }
    assert(v@.take(v@.len() as int) =~= v@);
    let order = sorted_order(&keys);
    let mut r: Vec<String> = Vec::new();
    let mut k: usize = 0;
    while k < order.len()
        invariant
            k <= order@.len(),
            stable_order(string_views(v@), order@),
            r@.len() == k,
            forall|a: int| 0 <= a < k ==> (#[trigger] r@[a])@ == v@[order@[a] as int]@,
        decreases order@.len() - k,
    {
        r.push(v[order[k]].clone());
        k = k + 1;
    }
    r
}

/// A contract crate from its package name, its path and the text of its
/// library source: the exported contract types, sorted (stably, by text).
/// `None` where the declaration pattern does not compile.
pub fn contract_crate(name: String, path: String, lib_content: &str) -> (r: Option<ContractCrate>)
    ensures
        r is Some == regex_compiles(CONTRACT_TYPE_PATTERN@),
        r matches Some(c) ==> {
            let found = exported_types_spec(lib_content@, regex_captures_result(CONTRACT_TYPE_PATTERN@, lib_content@, 2));
            &&& c.name@ == name@
            &&& c.path@ == path@
            &&& exists|order: Seq<usize>|
                stable_order(found, order) && c.exported_types@.len() == order.len()
                    && forall|i: int| 0 <= i < order.len() ==> (#[trigger] c.exported_types@[i])@ == found[order[i] as int]
        },
{
    let types = exported_contract_types(lib_content)?;
    let sorted = sort_strings(&types);
    proof {
        let order = choose|order: Seq<usize>|
            stable_order(string_views(types@), order) && sorted@.len() == order.len()
                && forall|i: int| 0 <= i < order.len() ==> (#[trigger] sorted@[i])@ == types@[order[i] as int]@;
        assert forall|i: int| 0 <= i < order.len() implies (#[trigger] sorted@[i])@ == string_views(types@)[order[i] as int] by {
            assert(order[i] < types@.len());
        }
    }
    Some(ContractCrate { name, path, exported_types: sorted })
}

/// A server module as plain values.
pub open spec fn server_view(s: ServerModule) -> (Seq<char>, Seq<char>, (bool, bool, bool, bool), Seq<Seq<char>>, Option<Seq<char>>, Seq<Seq<char>>) {
    (
        s.name@,
        s.path@,
        (s.has_openapi, s.has_runtime_openapi, s.has_handlers, s.has_routes),
        string_views(s.contract_dependencies@),
        match s.static_openapi { Some(t) => Some(t@), None => None },
        string_views(s.handler_sources@),
    )
}

/// The names of a list of servers.
pub open spec fn server_names(v: Seq<ServerModule>) -> Seq<Seq<char>> {
    v.map_values(|s: ServerModule| s.name@)
}

/// The server modules sorted by name; servers of the same name keep their
/// order.
pub fn sort_servers(servers: &Vec<ServerModule>) -> (r: Vec<ServerModule>)
    ensures
        exists|order: Seq<usize>|
            stable_order(server_names(servers@), order) && r@.len() == order.len()
                && forall|i: int| 0 <= i < order.len() ==> server_view(#[trigger] r@[i]) == server_view(servers@[order[i] as int]),
{
    let mut keys: Vec<Vec<char>> = Vec::new();
    let mut i: usize = 0;
    while i < servers.len()
        invariant
            i <= servers@.len(),
            views(keys@) == server_names(servers@.take(i as int)),
        decreases servers@.len() - i,
    {
        let ghost before = views(keys@);
        keys.push(chars_of(servers[i].name.as_str()));
        proof {
            assert(views(keys@) =~= before.push(servers@[i as int].name@));
            assert(server_names(servers@.take(i + 1)) =~= server_names(servers@.take(i as int)).push(servers@[i as int].name@));
        }
        i = i + 1;
    }
    assert(servers@.take(servers@.len() as int) =~= servers@);
    let order = sorted_order(&keys);
    let mut r: Vec<ServerModule> = Vec::new();
    let mut k: usize = 0;
    while k < order.len()
        invariant
            k <= order@.len(),
            stable_order(server_names(servers@), order@),
            r@.len() == k,
            forall|a: int| 0 <= a < k ==> server_view(#[trigger] r@[a]) == server_view(servers@[order@[a] as int]),
        decreases order@.len() - k,
    {
        let s = &servers[order[k]];
        let static_openapi = match &s.static_openapi {
            Some(t) => Some(t.clone()),
            None => None,
        };
        r.push(ServerModule {
            name: s.name.clone(),
            path: s.path.clone(),
            has_openapi: s.has_openapi,
            has_runtime_openapi: s.has_runtime_openapi,
            has_handlers: s.has_handlers,
            has_routes: s.has_routes,
            contract_dependencies: copy_strings(&s.contract_dependencies),
            static_openapi,
            handler_sources: copy_strings(&s.handler_sources),
        });
        k = k + 1;
    }
    r
}


// ---------------------------------------------------------------------------
// Shared-contract boundaries of services
// ---------------------------------------------------------------------------

/// Pattern of a use of the shared cross-process event type.
pub const APP_EVENT_PATTERN: &'static str = r"contracts_events::AppEvent|use\s+contracts_events::\{[^}]*AppEvent";

/// Pattern of a service-local event declaration.
pub const LOCAL_EVENT_PATTERN: &'static str = r"pub\s+enum\s+\w+Event|pub\s+struct\s+\w+Event";

/// Pattern of a write to the event outbox.
pub const OUTBOX_PATTERN: &'static str = r"INSERT\s+INTO\s+event_outbox|UPDATE\s+event_outbox";

/// The comment patterns and the three boundary patterns all compile.
pub open spec fn boundary_patterns_compile() -> bool {
    &&& comment_patterns_compile()
    &&& regex_compiles(APP_EVENT_PATTERN@)
    &&& regex_compiles(LOCAL_EVENT_PATTERN@)
    &&& regex_compiles(OUTBOX_PATTERN@)
}

/// The Rust sources of each service, as (path relative to the workspace,
/// content), as plain values.
pub open spec fn service_sources(services: Seq<Vec<(String, String)>>) -> Seq<Seq<(Seq<char>, Seq<char>)>> {
    services.map_values(|files: Vec<(String, String)>| source_views(files@))
}

/// Source files as plain values.
pub open spec fn source_views(files: Seq<(String, String)>) -> Seq<(Seq<char>, Seq<char>)> {
    files.map_values(|f: (String, String)| (f.0@, f.1@))
}

/// Some source of the service, comments removed, uses the shared event type.
pub open spec fn uses_shared_app_event(files: Seq<(Seq<char>, Seq<char>)>) -> bool {
    exists|i: int| 0 <= i < files.len() && regex_match_result(APP_EVENT_PATTERN@, stripped(#[trigger] files[i].1))
}

pub open spec fn local_event_outbox_message() -> Seq<char> {
    "service-local event definitions must not live in files that write to event_outbox; promote cross-boundary events to contracts_events::AppEvent first"@
}

pub open spec fn outbox_without_app_event_message() -> Seq<char> {
    "services writing to event_outbox must define the cross-process payload via contracts_events::AppEvent somewhere in the same service crate"@
}

/// The findings for one source file: a local event declared beside an outbox
/// write, then an outbox write in a service that never uses the shared event
/// type. Both are errors.
pub open spec fn file_boundary_findings(relative: Seq<char>, content: Seq<char>, shared: bool) -> Seq<(bool, Seq<char>, Seq<char>)> {
    let code = stripped(content);
    let outbox = regex_match_result(OUTBOX_PATTERN@, code);
    let a: Seq<(bool, Seq<char>, Seq<char>)> = if regex_match_result(LOCAL_EVENT_PATTERN@, code) && outbox {
        seq![(true, relative, local_event_outbox_message())]
    } else {
        Seq::empty()
    };
    let b: Seq<(bool, Seq<char>, Seq<char>)> = if outbox && !shared {
        seq![(true, relative, outbox_without_app_event_message())]
    } else {
        Seq::empty()
    };
    a + b
}

/// The findings for the files of one service, in file order.
pub open spec fn files_boundary_findings(files: Seq<(Seq<char>, Seq<char>)>, shared: bool) -> Seq<(bool, Seq<char>, Seq<char>)>
    decreases files.len(),
{
    if files.len() == 0 {
        Seq::empty()
    } else {
        files_boundary_findings(files.drop_last(), shared) + file_boundary_findings(files.last().0, files.last().1, shared)
    }
}

/// The findings for all services, in service order.
pub open spec fn contract_boundary_findings_spec(services: Seq<Seq<(Seq<char>, Seq<char>)>>) -> Seq<(bool, Seq<char>, Seq<char>)>
    decreases services.len(),
{
    if services.len() == 0 {
        Seq::empty()
    } else {
        contract_boundary_findings_spec(services.drop_last()) + files_boundary_findings(
            services.last(),
            uses_shared_app_event(services.last()),
        )
    }
}

/// Whether some source of the service uses the shared event type.
fn shares_app_event(files: &Vec<(String, String)>) -> (r: bool)
    requires
        boundary_patterns_compile(),
    ensures
        r == uses_shared_app_event(source_views(files@)),
{
    let ghost fv = source_views(files@);
    let mut i: usize = 0;
    while i < files.len()
        invariant
            i <= files@.len(),
            boundary_patterns_compile(),
            fv == source_views(files@),
            forall|j: int| 0 <= j < i ==> !regex_match_result(APP_EVENT_PATTERN@, stripped(#[trigger] fv[j].1)),
        decreases files@.len() - i,
    {
        let code = strip_rust_comments(files[i].1.as_str()).unwrap();
        let hit = regex_is_match(APP_EVENT_PATTERN, code.as_str()).unwrap();
        assert(fv[i as int].1 == files@[i as int].1@);
        if hit {
            return true;
        }
        i = i + 1;
    }
    false
}

/// Appends the findings of one service's files.
fn push_service_boundary_findings(out: &mut Vec<Flagged>, files: &Vec<(String, String)>, shared: bool)
    requires
        boundary_patterns_compile(),
    ensures
        flagged_views(final(out)@) == flagged_views(old(out)@) + files_boundary_findings(source_views(files@), shared),
{
    let ghost fv = source_views(files@);
    let ghost start = flagged_views(out@);
    let mut i: usize = 0;
    while i < files.len()
        invariant
            i <= files@.len(),
            boundary_patterns_compile(),
            fv == source_views(files@),
            flagged_views(out@) == start + files_boundary_findings(fv.take(i as int), shared),
        decreases files@.len() - i,
    {
        proof {
            assert(fv.take(i + 1).drop_last() =~= fv.take(i as int));
            assert(fv.take(i + 1).last() == fv[i as int]);
        }
        let ghost before = flagged_views(out@);
        let relative = files[i].0.as_str();
        let code = strip_rust_comments(files[i].1.as_str()).unwrap();
        let local = regex_is_match(LOCAL_EVENT_PATTERN, code.as_str()).unwrap();
        let outbox = regex_is_match(OUTBOX_PATTERN, code.as_str()).unwrap();
        if local && outbox {
            push_flag(out, true, relative, "service-local event definitions must not live in files that write to event_outbox; promote cross-boundary events to contracts_events::AppEvent first");
        }
        if outbox && !shared {
            push_flag(out, true, relative, "services writing to event_outbox must define the cross-process payload via contracts_events::AppEvent somewhere in the same service crate");
        }
        proof {
            assert(flagged_views(out@) =~= before + file_boundary_findings(fv[i as int].0, fv[i as int].1, shared));
        }
        i = i + 1;
    }
    assert(fv.take(files@.len() as int) =~= fv);
}

/// The findings of the shared-contract boundary validation over the Rust
/// sources of each service (path relative to the workspace, content):
/// every file that declares a local event type and writes to the event
/// outbox, and every outbox-writing file of a service in which no source
/// uses `contracts_events::AppEvent`; comments are ignored. `None` where one
/// of the patterns does not compile.
pub fn contract_boundary_findings(services: &Vec<Vec<(String, String)>>) -> (r: Option<Vec<Flagged>>)
    ensures
        r is Some == boundary_patterns_compile(),
        r matches Some(v) ==> flagged_views(v@) == contract_boundary_findings_spec(service_sources(services@)),
{
    if strip_rust_comments("").is_none() || regex_is_match(APP_EVENT_PATTERN, "").is_none()
        || regex_is_match(LOCAL_EVENT_PATTERN, "").is_none() || regex_is_match(OUTBOX_PATTERN, "").is_none() {
        return None;
    }
    let ghost sv = service_sources(services@);
    let mut out: Vec<Flagged> = Vec::new();
    let mut s: usize = 0;
    while s < services.len()
        invariant
            s <= services@.len(),
            boundary_patterns_compile(),
            sv == service_sources(services@),
            flagged_views(out@) == contract_boundary_findings_spec(sv.take(s as int)),
        decreases services@.len() - s,
    {
        proof {
            assert(sv.take(s + 1).drop_last() =~= sv.take(s as int));
            assert(sv.take(s + 1).last() == sv[s as int]);
        }
        let shared = shares_app_event(&services[s]);
        push_service_boundary_findings(&mut out, &services[s], shared);
        s = s + 1;
    }
    assert(sv.take(services@.len() as int) =~= sv);
    Some(out)
}


// ---------------------------------------------------------------------------
// Mode
// ---------------------------------------------------------------------------

/// Findings that are one finding of severity `strict`, or none.
proof fn lemma_optional_escalates(present: bool, scope: Seq<char>, message: Seq<char>)
    ensures
        escalates(
            if present { seq![(false, scope, message)] } else { Seq::<(bool, Seq<char>, Seq<char>)>::empty() },
            if present { seq![(true, scope, message)] } else { Seq::<(bool, Seq<char>, Seq<char>)>::empty() },
        ),
{
    lemma_escalates_single((false, scope, message), (true, scope, message));
}

proof fn lemma_server_doc_escalates(s: ServerModule)
    ensures
        escalates(server_doc_findings(s, false), server_doc_findings(s, true)),
{
    let a0: Seq<(bool, Seq<char>, Seq<char>)> = if s.has_handlers && !s.has_openapi { seq![(false, s.path@, missing_openapi_message())] } else { Seq::empty() };
    let a1: Seq<(bool, Seq<char>, Seq<char>)> = if s.has_handlers && !s.has_openapi { seq![(true, s.path@, missing_openapi_message())] } else { Seq::empty() };
    lemma_optional_escalates(s.has_handlers && !s.has_openapi, s.path@, missing_openapi_message());
    let b: Seq<(bool, Seq<char>, Seq<char>)> = if s.has_handlers && s.contract_dependencies@.len() == 0 {
        seq![(false, s.path@, no_contracts_message())]
    } else {
        Seq::empty()
    };
    lemma_escalates_refl(b);
    let unreadable = !(s.has_runtime_openapi || !s.has_openapi) && s.static_openapi is None;
    let c0: Seq<(bool, Seq<char>, Seq<char>)> = if s.has_runtime_openapi || !s.has_openapi {
        Seq::empty()
    } else {
        match s.static_openapi {
            Some(text) => if (contains(text@, "paths: {}"@) || contains(text@, "paths:{}"@)) && s.has_handlers {
                seq![(false, s.path@, empty_paths_message())]
            } else {
                Seq::empty()
            },
            None => seq![(false, s.path@, unreadable_openapi_message())],
        }
    };
    let c1: Seq<(bool, Seq<char>, Seq<char>)> = if s.has_runtime_openapi || !s.has_openapi {
        Seq::empty()
    } else {
        match s.static_openapi {
            Some(text) => if (contains(text@, "paths: {}"@) || contains(text@, "paths:{}"@)) && s.has_handlers {
                seq![(false, s.path@, empty_paths_message())]
            } else {
                Seq::empty()
            },
            None => seq![(true, s.path@, unreadable_openapi_message())],
        }
    };
    lemma_optional_escalates(unreadable, s.path@, unreadable_openapi_message());
    lemma_escalates_refl(c0);
    assert(escalates(c0, c1));
    lemma_escalates_concat(a0, b, a1, b);
    lemma_escalates_concat(a0 + b, c0, a1 + b, c1);
    assert(server_doc_findings(s, false) == a0 + b + c0);
    assert(server_doc_findings(s, true) == a1 + b + c1);
}

proof fn lemma_doc_findings_escalates(servers: Seq<ServerModule>)
    ensures
        escalates(doc_findings(servers, false), doc_findings(servers, true)),
    decreases servers.len(),
{
    if servers.len() == 0 {
        lemma_escalates_refl(Seq::empty());
    } else {
        lemma_doc_findings_escalates(servers.drop_last());
        lemma_server_doc_escalates(servers.last());
        lemma_escalates_concat(
            doc_findings(servers.drop_last(), false),
            server_doc_findings(servers.last(), false),
            doc_findings(servers.drop_last(), true),
            server_doc_findings(servers.last(), true),
        );
    }
}

/// The mode only sets severities: strict mode reports the same
/// contract-coverage findings as warn mode, in the same order, with the
/// severe warnings raised to errors.
pub proof fn law_contracts_strict_escalates(facts: ContractFacts)
    ensures
        escalates(contract_findings_spec(facts, false), contract_findings_spec(facts, true)),
{
    lemma_optional_escalates(facts.api_routes_doc, api_routes_path(), api_routes_message());
    lemma_optional_escalates(facts.retired_api_bindings, retired_api_path(), retired_api_message());
    let (present, message) = match facts.web_bff_openapi {
        Some(text) => (!contains(text@, "openapi: 3.1.0"@), openapi_version_message()),
        None => (true, missing_artifact_message()),
    };
    lemma_optional_escalates(present, web_bff_openapi_path(), message);
    let a0: Seq<(bool, Seq<char>, Seq<char>)> = if facts.api_routes_doc { seq![(false, api_routes_path(), api_routes_message())] } else { Seq::empty() };
    let a1: Seq<(bool, Seq<char>, Seq<char>)> = if facts.api_routes_doc { seq![(true, api_routes_path(), api_routes_message())] } else { Seq::empty() };
    let b0: Seq<(bool, Seq<char>, Seq<char>)> = if facts.retired_api_bindings { seq![(false, retired_api_path(), retired_api_message())] } else { Seq::empty() };
    let b1: Seq<(bool, Seq<char>, Seq<char>)> = if facts.retired_api_bindings { seq![(true, retired_api_path(), retired_api_message())] } else { Seq::empty() };
    let c0: Seq<(bool, Seq<char>, Seq<char>)> = if present { seq![(false, web_bff_openapi_path(), message)] } else { Seq::empty() };
    let c1: Seq<(bool, Seq<char>, Seq<char>)> = if present { seq![(true, web_bff_openapi_path(), message)] } else { Seq::empty() };
    lemma_escalates_concat(a0, b0, a1, b1);
    lemma_escalates_concat(a0 + b0, c0, a1 + b1, c1);
    assert(artifact_findings(facts, false) == a0 + b0 + c0);
    assert(artifact_findings(facts, true) == a1 + b1 + c1);
    let cf = crate_findings(facts.crates@, facts.servers@, facts.workspace_usage@);
    let uf = usage_findings(facts.servers@, facts.crates@);
    lemma_escalates_refl(cf);
    lemma_escalates_refl(uf);
    lemma_doc_findings_escalates(facts.servers@);
    lemma_escalates_concat(artifact_findings(facts, false), cf, artifact_findings(facts, true), cf);
    lemma_escalates_concat(
        artifact_findings(facts, false) + cf,
        doc_findings(facts.servers@, false),
        artifact_findings(facts, true) + cf,
        doc_findings(facts.servers@, true),
    );
    lemma_escalates_concat(
        artifact_findings(facts, false) + cf + doc_findings(facts.servers@, false),
        uf,
        artifact_findings(facts, true) + cf + doc_findings(facts.servers@, true),
        uf,
    );
}


// ---------------------------------------------------------------------------
// Package metadata read from manifests and `cargo metadata`
// ---------------------------------------------------------------------------

/// The package name of a contract crate's manifest: `package.name`, or the
/// directory's name where the manifest gives none.
pub open spec fn package_name_spec(d: DocValue, dir_name: Seq<char>) -> Seq<char> {
    match opt_text(get_in(get(d, "package"@), "name"@)) {
        Some(n) => n,
        None => dir_name,
    }
}

/// The package name of a contract crate's manifest text; `None` where the
/// text is not TOML.
pub fn contract_package_name(manifest: &str, dir_name: &str) -> (r: Option<String>)
    ensures
        match toml_document(manifest@) {
            None => r is None,
            Some(d) => r matches Some(n) && n@ == package_name_spec(d, dir_name@),
        },
{
    let d = match parse_toml(manifest) {
        None => return None,
        Some(d) => d,
    };
    match opt_doc_text(doc_get_in(doc_get(&d, "package"), "name")) {
        Some(n) => Some(n),
        None => Some(dir_name.to_string()),
    }
}

/// A dependency as plain values.
pub open spec fn dependency_view(d: Dependency) -> (Option<Seq<char>>, Option<Seq<char>>) {
    (
        match d.name {
            Some(n) => Some(n@),
            None => None,
        },
        match d.kind {
            Some(k) => Some(k@),
            None => None,
        },
    )
}

/// The first package of the metadata whose `name` is `name`.
pub open spec fn package_named(items: Seq<DocValue>, name: Seq<char>) -> Option<DocValue>
    decreases items.len(),
{
    if items.len() == 0 {
        None
    } else if opt_text(get(items[0], "name"@)) == Some(name) {
        Some(items[0])
    } else {
        package_named(items.skip(1), name)
    }
}

/// The `name` and `kind` of a dependency entry.
pub open spec fn dep_entry(x: DocValue) -> (Option<Seq<char>>, Option<Seq<char>>) {
    (opt_text(get(x, "name"@)), opt_text(get(x, "kind"@)))
}

/// The dependencies of a package's metadata: `name` and `kind` of each entry
/// of its `dependencies` list, where it has one.
pub open spec fn dependencies_of(pkg: DocValue) -> Seq<(Option<Seq<char>>, Option<Seq<char>>)> {
    match get(pkg, "dependencies"@) {
        Some(DocValue::List(items)) => items@.map_values(|x: DocValue| dep_entry(x)),
        _ => Seq::empty(),
    }
}

/// The dependencies of `package` in `cargo metadata` JSON: `None` where the
/// text is not JSON or has no `packages` list, `Some(None)` where no package
/// has that name.
pub fn metadata_dependencies(metadata_json: &str, package: &str) -> (r: Option<Option<Vec<Dependency>>>)
    ensures
        match json_document(metadata_json@) {
            None => r is None,
            Some(d) => match get(d, "packages"@) {
                Some(DocValue::List(items)) => match package_named(items@, package@) {
                    Some(p) => r matches Some(Some(v)) && v@.map_values(|x: Dependency| dependency_view(x))
                        == dependencies_of(p),
                    None => r matches Some(None),
                },
                _ => r is None,
            },
        },
{
    let d = match parse_json(metadata_json) {
        None => return None,
        Some(d) => d,
    };
    let items = match doc_get(&d, "packages") {
        Some(DocValue::List(items)) => items,
        _ => return None,
    };
    let mut i: usize = 0;
    assert(items@.skip(0) =~= items@);
    while i < items.len()
        invariant
            i <= items@.len(),
            json_document(metadata_json@) == Some(d),
            get(d, "packages"@) == Some(DocValue::List(*items)),
            package_named(items@, package@) == package_named(items@.skip(i as int), package@),
        decreases items@.len() - i,
    {
        assert(items@.skip(i as int)[0] == items@[i as int]);
        let name = opt_doc_text(doc_get(&items[i], "name"));
        let is_it = match &name {
            Some(n) => same_chars(&chars_of(n.as_str()), &chars_of(package)),
            None => false,
        };
        if is_it {
            assert(package_named(items@, package@) == Some(items@[i as int]));
            let mut out: Vec<Dependency> = Vec::new();
            match doc_get(&items[i], "dependencies") {
                Some(DocValue::List(deps)) => {
                    let mut j: usize = 0;
                    while j < deps.len()
                        invariant
                            j <= deps@.len(),
                            out@.map_values(|x: Dependency| dependency_view(x)) =~= deps@.take(
                                j as int,
                            ).map_values(|x: DocValue| dep_entry(x)),
                        decreases deps@.len() - j,
                    {
                        let dep = Dependency {
                            name: opt_doc_text(doc_get(&deps[j], "name")),
                            kind: opt_doc_text(doc_get(&deps[j], "kind")),
                        };
                        let ghost before = out@;
                        let ghost dv = dependency_view(dep);
                        out.push(dep);
                        assert(out@.map_values(|x: Dependency| dependency_view(x)) =~= before.map_values(
                            |x: Dependency| dependency_view(x),
                        ).push(dv));
                        assert(deps@.take(j + 1) =~= deps@.take(j as int).push(deps@[j as int]));
                        j = j + 1;
                    }
                    assert(deps@.take(deps@.len() as int) =~= deps@);
                },
                _ => {
                    assert(out@.map_values(|x: Dependency| dependency_view(x)) =~= Seq::<
                        (Option<Seq<char>>, Option<Seq<char>>),
                    >::empty());
                },
            }
            assert(out@.map_values(|x: Dependency| dependency_view(x)) == dependencies_of(items@[i as int]));
            return Some(Some(out));
        }
        assert(items@.skip(i as int).skip(1) =~= items@.skip(i + 1));
        i = i + 1;
    }
    Some(None)
}


/// The `manifest_path` of `package` in `cargo metadata` JSON: `None` where
/// the text is not JSON or has no `packages` list, `Some(None)` where no
/// package has that name or it gives no path.
pub fn metadata_manifest_path(metadata_json: &str, package: &str) -> (r: Option<Option<String>>)
    ensures
        match json_document(metadata_json@) {
            None => r is None,
            Some(d) => match get(d, "packages"@) {
                Some(DocValue::List(items)) => match package_named(items@, package@) {
                    Some(p) => match opt_text(get(p, "manifest_path"@)) {
                        Some(m) => r matches Some(Some(x)) && x@ == m,
                        None => r matches Some(None),
                    },
                    None => r matches Some(None),
                },
                _ => r is None,
            },
        },
{
    let d = match parse_json(metadata_json) {
        None => return None,
        Some(d) => d,
    };
    let items = match doc_get(&d, "packages") {
        Some(DocValue::List(items)) => items,
        _ => return None,
    };
    let mut i: usize = 0;
    assert(items@.skip(0) =~= items@);
    while i < items.len()
        invariant
            i <= items@.len(),
            json_document(metadata_json@) == Some(d),
            get(d, "packages"@) == Some(DocValue::List(*items)),
            package_named(items@, package@) == package_named(items@.skip(i as int), package@),
        decreases items@.len() - i,
    {
        assert(items@.skip(i as int)[0] == items@[i as int]);
        let name = opt_doc_text(doc_get(&items[i], "name"));
        let is_it = match &name {
            Some(n) => same_chars(&chars_of(n.as_str()), &chars_of(package)),
            None => false,
        };
        if is_it {
            assert(package_named(items@, package@) == Some(items@[i as int]));
            return Some(opt_doc_text(doc_get(&items[i], "manifest_path")));
        }
        assert(items@.skip(i as int).skip(1) =~= items@.skip(i + 1));
        i = i + 1;
    }
    Some(None)
}

} // verus!
