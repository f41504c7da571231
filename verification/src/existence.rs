//! Existence of declared modules: services, servers and workers declared in
//! the code map must exist with their required files, unless they are only
//! planned; modules present in the repository must be declared.
//!
//! The caller looks at the file system, asking this module which paths to
//! look at, and hands back what it found.
use vstd::prelude::*;

use crate::contracts::vec_has;
use crate::doc::{
    doc_get, doc_get_in, doc_texts, get, get_in, opt_doc_text, opt_text, parse_yaml, text_of, texts_in,
    yaml_document, DocValue, doc_text,
};
use crate::sorting::{sort_dedup, strictly_sorted, views};
use crate::gate::string_views;
use crate::report::{escalates, flagged_views, lemma_escalates_concat, lemma_escalates_push, lemma_escalates_refl, lemma_escalates_single, Flagged};
use crate::text::{chars_of, contains, contains_chars, push_str, replace_all, replace_str, same_chars, string_of};

verus! {

/// `s` without its trailing `c`s (`str::trim_end_matches` on a char).
pub open spec fn trim_end_char(s: Seq<char>, c: char) -> Seq<char>
    decreases s.len(),
{
    if s.len() > 0 && s.last() == c {
        trim_end_char(s.drop_last(), c)
    } else {
        s
    }
}

/// The kind of modules a code map group declares: the group name without
/// trailing `s`, where that is `service`, `server` or `worker`.
pub open spec fn module_kind_spec(group: Seq<char>) -> Option<Seq<char>> {
    let k = trim_end_char(group, 's');
    if k == "service"@ || k == "server"@ || k == "worker"@ {
        Some(k)
    } else {
        None
    }
}

/// The kind of modules the code map group `group` declares, if it is one
/// whose existence is checked.
pub fn module_kind(group: &str) -> (r: Option<&'static str>)
    ensures
        match r {
            Some(k) => module_kind_spec(group@) == Some(k@),
            None => module_kind_spec(group@) is None,
        },
{
    let g = chars_of(group);
    let mut n: usize = g.len();
    assert(g@.take(n as int) =~= g@);
    while n > 0 && g[n - 1] == 's'
        invariant
            n <= g@.len(),
            trim_end_char(g@.take(n as int), 's') == trim_end_char(g@, 's'),
        decreases n,
    {
        proof {
            assert(g@.take(n as int).drop_last() =~= g@.take(n - 1));
        }
        n = n - 1;
    }
    let k = crate::text::slice(&g, 0, n);
    assert(k@ =~= g@.take(n as int));
    if same_chars(&k, &chars_of("service")) {
        Some("service")
    } else if same_chars(&k, &chars_of("server")) {
        Some("server")
    } else if same_chars(&k, &chars_of("worker")) {
        Some("worker")
    } else {
        None
    }
}

/// A declared module whose existence is not checked: planned, or noted as
/// not implemented yet, a placeholder, or a semantic boundary only.
pub open spec fn exempt(status: Seq<char>, notes: Seq<char>) -> bool {
    status == "planned"@ || contains(notes, "尚未实现"@) || contains(notes, "占位"@) || contains(
        notes,
        "仅保留语义边界"@,
    )
}

/// Whether the declared module's existence is left unchecked.
pub fn is_exempt(status: &str, notes: &str) -> (r: bool)
    ensures
        r == exempt(status@, notes@),
{
    let n = chars_of(notes);
    same_chars(&chars_of(status), &chars_of("planned")) || contains_chars(&n, &chars_of("尚未实现"))
        || contains_chars(&n, &chars_of("占位")) || contains_chars(&n, &chars_of("仅保留语义边界"))
}

/// The path, relative to the module, that a required-file entry names:
/// `<name>` stands for the module's directory name.
pub open spec fn required_path_spec(entry: Seq<char>, module_name: Seq<char>) -> Seq<char> {
    if contains(entry, "<name>"@) {
        replace_all(entry, "<name>"@, module_name)
    } else {
        entry
    }
}

/// The path, relative to the module, that a required-file entry names.
pub fn required_path(entry: &str, module_name: &str) -> (r: String)
    ensures
        r@ == required_path_spec(entry@, module_name@),
{
    proof {
        reveal_strlit("<name>");
    }
    let e = chars_of(entry);
    let marker = chars_of("<name>");
    if contains_chars(&e, &marker) {
        string_of(&replace_str(&e, &marker, &chars_of(module_name)))
    } else {
        entry.to_string()
    }
}

/// A declared module and what was found of it: whether its directory exists,
/// and, for each required-file entry of its kind, whether the path exists.
#[derive(Debug, Clone)]
pub struct DeclaredModule {
    pub path: String,
    pub status: String,
    pub notes: String,
    pub exists: bool,
    pub required: Vec<(String, bool)>,
}

/// The findings for the missing required files, in entry order.
pub open spec fn missing_required(path: Seq<char>, required: Seq<(String, bool)>, strict: bool) -> Seq<(bool, Seq<char>, Seq<char>)>
    decreases required.len(),
{
    if required.len() == 0 {
        Seq::empty()
    } else {
        let rest = missing_required(path, required.drop_last(), strict);
        if required.last().1 {
            rest
        } else {
            rest.push((strict, path, "missing required path: "@ + required.last().0@))
        }
    }
}

/// The findings for one declared module.
pub open spec fn module_findings(m: DeclaredModule, strict: bool) -> Seq<(bool, Seq<char>, Seq<char>)> {
    if exempt(m.status@, m.notes@) {
        Seq::empty()
    } else if !m.exists {
        seq![(strict, m.path@, "declared in codemap but directory does not exist"@)]
    } else {
        missing_required(m.path@, m.required@, strict)
    }
}

/// The findings for the declared modules, in order.
pub open spec fn declared_findings(ms: Seq<DeclaredModule>, strict: bool) -> Seq<(bool, Seq<char>, Seq<char>)>
    decreases ms.len(),
{
    if ms.len() == 0 {
        Seq::empty()
    } else {
        declared_findings(ms.drop_last(), strict) + module_findings(ms.last(), strict)
    }
}

/// The findings for modules found in the repository but not declared.
pub open spec fn undeclared_findings(found: Seq<Seq<char>>, declared: Seq<DeclaredModule>) -> Seq<(bool, Seq<char>, Seq<char>)>
    decreases found.len(),
{
    if found.len() == 0 {
        Seq::empty()
    } else {
        let rest = undeclared_findings(found.drop_last(), declared);
        let f = found.last();
        if exists|i: int| 0 <= i < declared.len() && (#[trigger] declared[i]).path@ == f {
            rest
        } else {
            rest.push((false, f, "exists in repository but is not declared in agent/codemap.yml"@))
        }
    }
}

/// Whether a declared module has the path.
fn is_declared(declared: &Vec<DeclaredModule>, path: &str) -> (r: bool)
    ensures
        r == exists|i: int| 0 <= i < declared@.len() && (#[trigger] declared@[i]).path@ == path@,
{
    let p = chars_of(path);
    let mut i: usize = 0;
    while i < declared.len()
        invariant
            i <= declared@.len(),
            p@ == path@,
            forall|j: int| 0 <= j < i ==> (#[trigger] declared@[j]).path@ != path@,
        decreases declared@.len() - i,
    {
        if same_chars(&chars_of(declared[i].path.as_str()), &p) {
            return true;
        }
        i = i + 1;
    }
    false
}

/// The findings of the existence validation: for each declared module that
/// is not exempt, a missing directory or each missing required file; then
/// each module found in the repository (a directory with a manifest) that is
/// not declared.
pub fn existence_findings(declared: &Vec<DeclaredModule>, found: &Vec<String>, strict: bool) -> (r: Vec<Flagged>)
    ensures
        flagged_views(r@) == declared_findings(declared@, strict) + undeclared_findings(string_views(found@), declared@),
{
    let mut out: Vec<Flagged> = Vec::new();
    let mut i: usize = 0;
    while i < declared.len()
        invariant
            i <= declared@.len(),
            flagged_views(out@) == declared_findings(declared@.take(i as int), strict),
        decreases declared@.len() - i,
    {
        proof {
            assert(declared@.take(i + 1).drop_last() =~= declared@.take(i as int));
        }
        let m = &declared[i];
        let ghost before = flagged_views(out@);
        if is_exempt(m.status.as_str(), m.notes.as_str()) {
        } else if !m.exists {
            out.push(crate::report::flag(strict, m.path.as_str(), "declared in codemap but directory does not exist"));
            proof {
                assert(flagged_views(out@) =~= before + module_findings(*m, strict));
            }
        } else {
            let mut k: usize = 0;
            while k < m.required.len()
                invariant
                    k <= m.required@.len(),
                    flagged_views(out@) == before + missing_required(m.path@, m.required@.take(k as int), strict),
                decreases m.required@.len() - k,
            {
                proof {
                    assert(m.required@.take(k + 1).drop_last() =~= m.required@.take(k as int));
                }
                if !m.required[k].1 {
                    let mut msg = chars_of("missing required path: ");
                    push_str(&mut msg, m.required[k].0.as_str());
                    let ghost b2 = flagged_views(out@);
                    out.push(Flagged { error: strict, scope: m.path.clone(), message: string_of(&msg) });
                    proof {
                        assert(flagged_views(out@) =~= b2.push((strict, m.path@, "missing required path: "@ + m.required@[k as int].0@)));
                    }
                }
                k = k + 1;
            }
            assert(m.required@.take(m.required@.len() as int) =~= m.required@);
        }
        proof {
            assert(flagged_views(out@) =~= before + module_findings(*m, strict));
        }
        i = i + 1;
    }
    assert(declared@.take(declared@.len() as int) =~= declared@);
    let ghost base = flagged_views(out@);
    let ghost fv = string_views(found@);
    let mut j: usize = 0;
    while j < found.len()
        invariant
            j <= found@.len(),
            fv == string_views(found@),
            flagged_views(out@) == base + undeclared_findings(fv.take(j as int), declared@),
        decreases found@.len() - j,
    {
        proof {
            assert(fv.take(j + 1).drop_last() =~= fv.take(j as int));
            assert(fv.take(j + 1).last() == found@[j as int]@);
        }
        if !is_declared(declared, found[j].as_str()) {
            let ghost before = flagged_views(out@);
            out.push(crate::report::flag(false, found[j].as_str(), "exists in repository but is not declared in agent/codemap.yml"));
            proof {
                assert(flagged_views(out@) =~= before.push((false, found@[j as int]@, "exists in repository but is not declared in agent/codemap.yml"@)));
            }
        }
        j = j + 1;
    }
    assert(fv.take(found@.len() as int) =~= fv);
    out
}


// ---------------------------------------------------------------------------
// Mode
// ---------------------------------------------------------------------------

proof fn lemma_missing_required_escalates(path: Seq<char>, required: Seq<(String, bool)>)
    ensures
        escalates(missing_required(path, required, false), missing_required(path, required, true)),
    decreases required.len(),
{
    if required.len() == 0 {
        lemma_escalates_refl(Seq::empty());
    } else {
        lemma_missing_required_escalates(path, required.drop_last());
        if !required.last().1 {
            let m = "missing required path: "@ + required.last().0@;
            lemma_escalates_push(
                missing_required(path, required.drop_last(), false),
                missing_required(path, required.drop_last(), true),
                (false, path, m),
                (true, path, m),
            );
        }
    }
}

proof fn lemma_declared_findings_escalates(ms: Seq<DeclaredModule>)
    ensures
        escalates(declared_findings(ms, false), declared_findings(ms, true)),
    decreases ms.len(),
{
    if ms.len() == 0 {
        lemma_escalates_refl(Seq::empty());
    } else {
        lemma_declared_findings_escalates(ms.drop_last());
        let m = ms.last();
        lemma_escalates_single(
            (false, m.path@, "declared in codemap but directory does not exist"@),
            (true, m.path@, "declared in codemap but directory does not exist"@),
        );
        lemma_missing_required_escalates(m.path@, m.required@);
        lemma_escalates_concat(
            declared_findings(ms.drop_last(), false),
            module_findings(m, false),
            declared_findings(ms.drop_last(), true),
            module_findings(m, true),
        );
    }
}

/// The mode only sets severities: strict mode reports the same existence
/// findings as warn mode, in the same order, with warnings about declared
/// modules raised to errors.
pub proof fn law_existence_strict_escalates(declared: Seq<DeclaredModule>, found: Seq<Seq<char>>)
    ensures
        escalates(
            declared_findings(declared, false) + undeclared_findings(found, declared),
            declared_findings(declared, true) + undeclared_findings(found, declared),
        ),
{
    lemma_declared_findings_escalates(declared);
    lemma_escalates_refl(undeclared_findings(found, declared));
    lemma_escalates_concat(
        declared_findings(declared, false),
        undeclared_findings(found, declared),
        declared_findings(declared, true),
        undeclared_findings(found, declared),
    );
}


/// A declared module that is planned, or whose notes mark it as not
/// implemented yet (`尚未实现`), a placeholder (`占位`) or a semantic boundary
/// only (`仅保留语义边界`), whatever its status.
pub open spec fn marked_unchecked(m: DeclaredModule) -> bool {
    m.status@ == "planned"@ || contains(m.notes@, "尚未实现"@) || contains(m.notes@, "占位"@)
        || contains(m.notes@, "仅保留语义边界"@)
}

proof fn lemma_unchecked_no_findings(ms: Seq<DeclaredModule>, strict: bool)
    requires
        forall|i: int| 0 <= i < ms.len() ==> marked_unchecked(#[trigger] ms[i]),
    ensures
        declared_findings(ms, strict).len() == 0,
    decreases ms.len(),
{
    if ms.len() > 0 {
        assert(marked_unchecked(ms[ms.len() - 1]));
        lemma_unchecked_no_findings(ms.drop_last(), strict);
    }
}

/// Some declared module has the path.
pub open spec fn declares(declared: Seq<DeclaredModule>, path: Seq<char>) -> bool {
    exists|i: int| 0 <= i < declared.len() && (#[trigger] declared[i]).path@ == path
}

proof fn lemma_declared_found_no_findings(found: Seq<Seq<char>>, declared: Seq<DeclaredModule>)
    requires
        forall|j: int| 0 <= j < found.len() ==> declares(declared, #[trigger] found[j]),
    ensures
        undeclared_findings(found, declared).len() == 0,
    decreases found.len(),
{
    if found.len() > 0 {
        let j = found.len() - 1;
        assert(declares(declared, found[j]));
        lemma_declared_found_no_findings(found.drop_last(), declared);
    }
}

/// Modules that are planned, not implemented yet, placeholders or semantic
/// boundaries are not checked: when every declared module is such a module
/// and everything found is declared, there are no existence findings, even
/// where the declared directories are missing.
pub proof fn law_unchecked_modules_not_reported(declared: Seq<DeclaredModule>, found: Seq<Seq<char>>, strict: bool)
    requires
        forall|i: int| 0 <= i < declared.len() ==> marked_unchecked(#[trigger] declared[i]),
        forall|j: int| 0 <= j < found.len() ==> declares(declared, #[trigger] found[j]),
    ensures
        (declared_findings(declared, strict) + undeclared_findings(found, declared)).len() == 0,
{
    lemma_unchecked_no_findings(declared, strict);
    lemma_declared_found_no_findings(found, declared);
}

/// Any other declared module is checked: when its directory is missing, it
/// is reported as declared but missing, with the mode's severity.
pub proof fn law_missing_module_reported(m: DeclaredModule, strict: bool)
    requires
        !marked_unchecked(m),
        !m.exists,
    ensures
        declared_findings(seq![m], strict) == seq![
            (strict, m.path@, "declared in codemap but directory does not exist"@),
        ],
{
    assert(seq![m].drop_last() =~= Seq::<DeclaredModule>::empty());
    assert(seq![m].last() == m);
    let d = module_findings(m, strict);
    assert(!exempt(m.status@, m.notes@));
    assert(declared_findings(seq![m].drop_last(), strict) == Seq::<(bool, Seq<char>, Seq<char>)>::empty());
    assert(Seq::<(bool, Seq<char>, Seq<char>)>::empty() + d =~= d);
}

/// A module found in the repository that no declared module names is
/// reported as undeclared, as a warning.
pub proof fn law_undeclared_module_reported(found: Seq<Seq<char>>, declared: Seq<DeclaredModule>, k: int)
    requires
        0 <= k < found.len(),
        !declares(declared, found[k]),
    ensures
        undeclared_findings(found, declared).contains(
            (false, found[k], "exists in repository but is not declared in agent/codemap.yml"@),
        ),
    decreases found.len(),
{
    let rest = undeclared_findings(found.drop_last(), declared);
    if k == found.len() - 1 {
        assert(!(exists|i: int| 0 <= i < declared.len() && (#[trigger] declared[i]).path@ == found.last()));
        let f = (false, found[k], "exists in repository but is not declared in agent/codemap.yml"@);
        assert(rest.push(f)[rest.len() as int] == f);
    } else {
        assert(found.drop_last()[k] == found[k]);
        law_undeclared_module_reported(found.drop_last(), declared, k);
        let f = (false, found[k], "exists in repository but is not declared in agent/codemap.yml"@);
        let i = choose|i: int| 0 <= i < rest.len() && rest[i] == f;
        let g = (false, found.last(), "exists in repository but is not declared in agent/codemap.yml"@);
        assert(rest.push(g)[i] == f);
    }
}

proof fn lemma_missing_required_contains(path: Seq<char>, required: Seq<(String, bool)>, strict: bool, k: int)
    requires
        0 <= k < required.len(),
        !required[k].1,
    ensures
        missing_required(path, required, strict).contains(
            (strict, path, "missing required path: "@ + required[k].0@),
        ),
    decreases required.len(),
{
    let rest = missing_required(path, required.drop_last(), strict);
    let f = (strict, path, "missing required path: "@ + required[k].0@);
    if k == required.len() - 1 {
        assert(rest.push(f)[rest.len() as int] == f);
    } else {
        assert(required.drop_last()[k] == required[k]);
        lemma_missing_required_contains(path, required.drop_last(), strict, k);
        let i = choose|i: int| 0 <= i < rest.len() && rest[i] == f;
        if !required.last().1 {
            let g = (strict, path, "missing required path: "@ + required.last().0@);
            assert(rest.push(g)[i] == f);
        }
    }
}

/// A checked module whose directory exists but lacks a required path is
/// reported for that path, with the mode's severity.
pub proof fn law_missing_required_reported(m: DeclaredModule, strict: bool, k: int)
    requires
        !marked_unchecked(m),
        m.exists,
        0 <= k < m.required@.len(),
        !m.required@[k].1,
    ensures
        declared_findings(seq![m], strict).contains(
            (strict, m.path@, "missing required path: "@ + m.required@[k].0@),
        ),
{
    assert(seq![m].drop_last() =~= Seq::<DeclaredModule>::empty());
    assert(seq![m].last() == m);
    assert(!exempt(m.status@, m.notes@));
    let d = module_findings(m, strict);
    assert(declared_findings(seq![m].drop_last(), strict) == Seq::<(bool, Seq<char>, Seq<char>)>::empty());
    assert(Seq::<(bool, Seq<char>, Seq<char>)>::empty() + d =~= d);
    lemma_missing_required_contains(m.path@, m.required@, strict, k);
}

// ---------------------------------------------------------------------------
// Modules declared in the code map
// ---------------------------------------------------------------------------

/// A declared module as plain values: path, kind, notes and status.
pub type ModuleRecord = (Seq<char>, Seq<char>, Seq<char>, Seq<char>);

/// The text of an optional value, or empty.
pub open spec fn text_or_empty(v: Option<DocValue>) -> Seq<char> {
    match opt_text(v) {
        Some(s) => s,
        None => Seq::empty(),
    }
}

/// The records of the items of one group, in order: items that are
/// mappings with a string `path`.
pub open spec fn item_records(kind: Seq<char>, items: Seq<(DocValue, DocValue)>) -> Seq<ModuleRecord>
    decreases items.len(),
{
    if items.len() == 0 {
        Seq::empty()
    } else {
        let rest = item_records(kind, items.drop_last());
        let item = items.last().1;
        match item {
            DocValue::Mapping(_) => match opt_text(get(item, "path"@)) {
                Some(p) => rest.push(
                    (p, kind, text_or_empty(get(item, "notes"@)), text_or_empty(get(item, "status"@))),
                ),
                None => rest,
            },
            _ => rest,
        }
    }
}

/// The records of one group: its kind, when its name is a checked kind, and
/// the records of its items, when they form a mapping.
pub open spec fn group_records(group: DocValue, items: DocValue) -> Seq<ModuleRecord> {
    match text_of(group) {
        Some(g) => match module_kind_spec(g) {
            Some(k) => match items {
                DocValue::Mapping(e) => item_records(k, e@),
                _ => Seq::empty(),
            },
            None => Seq::empty(),
        },
        None => Seq::empty(),
    }
}

/// The records of the groups of a section, in order.
pub open spec fn groups_records(groups: Seq<(DocValue, DocValue)>) -> Seq<ModuleRecord>
    decreases groups.len(),
{
    if groups.len() == 0 {
        Seq::empty()
    } else {
        groups_records(groups.drop_last()) + group_records(groups.last().0, groups.last().1)
    }
}

/// The records of a section of the code map.
pub open spec fn section_records(d: DocValue, section: Seq<char>) -> Seq<ModuleRecord> {
    match get(d, section) {
        Some(DocValue::Mapping(e)) => groups_records(e@),
        _ => Seq::empty(),
    }
}

/// All declared module records, `modules` before `reference_modules`.
pub open spec fn codemap_records(d: DocValue) -> Seq<ModuleRecord> {
    section_records(d, "modules"@) + section_records(d, "reference_modules"@)
}

/// The last record for `path`: a later declaration replaces an earlier one.
pub open spec fn last_record(rs: Seq<ModuleRecord>, path: Seq<char>) -> Option<ModuleRecord>
    decreases rs.len(),
{
    if rs.len() == 0 {
        None
    } else if rs.last().0 == path {
        Some(rs.last())
    } else {
        last_record(rs.drop_last(), path)
    }
}

/// The paths of records.
pub open spec fn record_paths(rs: Seq<ModuleRecord>) -> Seq<Seq<char>> {
    rs.map_values(|r: ModuleRecord| r.0)
}

/// The files required of modules of `kind`: the strings listed under
/// `rules.required_files.<kind>`.
pub open spec fn required_for(d: DocValue, kind: Seq<char>) -> Seq<Seq<char>> {
    match get_in(get_in(get(d, "rules"@), "required_files"@), kind) {
        Some(DocValue::List(items)) => texts_in(items@),
        _ => Seq::empty(),
    }
}

/// A declared module of the code map with the files its kind requires.
#[derive(Debug, Clone)]
pub struct CodemapModule {
    pub path: String,
    pub kind: String,
    pub notes: String,
    pub status: String,
    pub required: Vec<String>,
}

/// The record of a module.
pub open spec fn module_record(m: CodemapModule) -> ModuleRecord {
    (m.path@, m.kind@, m.notes@, m.status@)
}

type RecordRow = (String, String, String, String);

/// The record of a row.
pub open spec fn row_record(r: RecordRow) -> ModuleRecord {
    (r.0@, r.1@, r.2@, r.3@)
}

/// The records of rows.
pub open spec fn row_records(v: Seq<RecordRow>) -> Seq<ModuleRecord> {
    v.map_values(|r: RecordRow| row_record(r))
}

/// The text of an optional value, or empty.
fn text_or_empty_of(v: Option<&DocValue>) -> (r: String)
    ensures
        r@ == text_or_empty(match v { Some(x) => Some(*x), None => None }),
{
    match opt_doc_text(v) {
        Some(s) => s,
        None => String::new(),
    }
}

/// Appends the records of one group.
fn push_group_records(out: &mut Vec<RecordRow>, group: &DocValue, items: &DocValue)
    ensures
        row_records(final(out)@) == row_records(old(out)@) + group_records(*group, *items),
{
    let ghost start = row_records(out@);
    let g = match doc_text(group) {
        Some(g) => g,
        None => {
            assert(row_records(out@) =~= start + Seq::<ModuleRecord>::empty());
            return;
        },
    };
    let kind = match module_kind(g.as_str()) {
        Some(k) => k,
        None => {
            assert(row_records(out@) =~= start + Seq::<ModuleRecord>::empty());
            return;
        },
    };
    match items {
        DocValue::Mapping(e) => {
            let mut i: usize = 0;
            while i < e.len()
                invariant
                    i <= e@.len(),
                    row_records(out@) =~= start + item_records(kind@, e@.take(i as int)),
                decreases e@.len() - i,
            {
                assert(e@.take(i + 1).drop_last() =~= e@.take(i as int));
                let item = &e[i].1;
                match item {
                    DocValue::Mapping(_) => match opt_doc_text(doc_get(item, "path")) {
                        Some(p) => {
                            let notes = text_or_empty_of(doc_get(item, "notes"));
                            let status = text_or_empty_of(doc_get(item, "status"));
                            let ghost before = row_records(out@);
                            let row = (p, kind.to_string(), notes, status);
                            let ghost rv = row_record(row);
                            out.push(row);
                            assert(row_records(out@) =~= before.push(rv));
                        },
                        None => {},
                    },
                    _ => {},
                }
                i = i + 1;
            }
            assert(e@.take(e@.len() as int) =~= e@);
        },
        _ => {
            assert(row_records(out@) =~= start + Seq::<ModuleRecord>::empty());
        },
    }
}

/// Appends the records of a section.
fn push_section_records(out: &mut Vec<RecordRow>, d: &DocValue, section: &str)
    ensures
        row_records(final(out)@) == row_records(old(out)@) + section_records(*d, section@),
{
    let ghost start = row_records(out@);
    match doc_get(d, section) {
        Some(DocValue::Mapping(groups)) => {
            let mut i: usize = 0;
            while i < groups.len()
                invariant
                    i <= groups@.len(),
                    row_records(out@) =~= start + groups_records(groups@.take(i as int)),
                decreases groups@.len() - i,
            {
                assert(groups@.take(i + 1).drop_last() =~= groups@.take(i as int));
                push_group_records(out, &groups[i].0, &groups[i].1);
                i = i + 1;
            }
            assert(groups@.take(groups@.len() as int) =~= groups@);
        },
        _ => {
            assert(row_records(out@) =~= start + Seq::<ModuleRecord>::empty());
        },
    }
}

proof fn lemma_last_record_found(rs: Seq<ModuleRecord>, path: Seq<char>, i: int)
    requires
        0 <= i < rs.len(),
        rs[i].0 == path,
    ensures
        last_record(rs, path) matches Some(r) && r.0 == path,
    decreases rs.len(),
{
    if rs.last().0 != path {
        lemma_last_record_found(rs.drop_last(), path, i);
    }
}

/// The modules the code map text declares, one per path (a later
/// declaration of a path replaces an earlier one), sorted by path, each
/// with the files its kind requires; `None` where the text is not YAML.
pub fn codemap_existence_entries(codemap: &str) -> (r: Option<Vec<CodemapModule>>)
    ensures
        match yaml_document(codemap@) {
            None => r is None,
            Some(d) => r matches Some(v) && strictly_sorted(v@.map_values(|m: CodemapModule| m.path@))
                && v@.map_values(|m: CodemapModule| m.path@).to_set() == record_paths(
                codemap_records(d),
            ).to_set() && forall|i: int|
                0 <= i < v@.len() ==> last_record(codemap_records(d), #[trigger] v@[i].path@)
                    == Some(module_record(v@[i])) && string_views(v@[i].required@)
                    == required_for(d, v@[i].kind@),
        },
{
    let d = match parse_yaml(codemap) {
        None => return None,
        Some(d) => d,
    };
    let mut rows: Vec<RecordRow> = Vec::new();
    push_section_records(&mut rows, &d, "modules");
    push_section_records(&mut rows, &d, "reference_modules");
    let ghost recs = codemap_records(d);
    assert(row_records(rows@) =~= recs);
    let mut paths: Vec<Vec<char>> = Vec::new();
    let mut i: usize = 0;
    while i < rows.len()
        invariant
            i <= rows@.len(),
            views(paths@) =~= record_paths(row_records(rows@)).take(i as int),
        decreases rows@.len() - i,
    {
        let ghost before = views(paths@);
        let p = chars_of(rows[i].0.as_str());
        paths.push(p);
        assert(views(paths@) =~= before.push(rows@[i as int].0@));
        i = i + 1;
    }
    assert(record_paths(row_records(rows@)).take(rows@.len() as int) =~= record_paths(recs));
    let sorted = sort_dedup(paths);
    let mut out: Vec<CodemapModule> = Vec::new();
    let mut k: usize = 0;
    while k < sorted.len()
        invariant
            k <= sorted@.len(),
            row_records(rows@) == recs,
            recs == codemap_records(d),
            views(sorted@).to_set() == record_paths(recs).to_set(),
            out@.map_values(|m: CodemapModule| m.path@) =~= views(sorted@).take(k as int),
            forall|j: int|
                0 <= j < out@.len() ==> last_record(recs, #[trigger] out@[j].path@) == Some(
                    module_record(out@[j]),
                ) && string_views(out@[j].required@) == required_for(d, out@[j].kind@),
        decreases sorted@.len() - k,
    {
        let ghost p = sorted@[k as int]@;
        proof {
            assert(views(sorted@)[k as int] == p);
            assert(views(sorted@).to_set().contains(p));
            assert(record_paths(recs).to_set().contains(p));
            let w = choose|w: int| 0 <= w < record_paths(recs).len() && record_paths(recs)[w] == p;
            lemma_last_record_found(recs, p, w);
        }
        let key = sorted[k].clone();
        let mut j: usize = rows.len();
        assert(row_records(rows@).take(j as int) =~= row_records(rows@));
        let mut found = false;
        let mut w: usize = 0;
        while j > 0
            invariant
                j <= rows@.len(),
                row_records(rows@) == recs,
                key@ == p,
                last_record(recs, p) is Some,
                !found ==> last_record(recs, p) == last_record(row_records(rows@).take(j as int), p),
                found ==> w < rows@.len() && last_record(recs, p) == Some(row_record(rows@[w as int])),
            decreases j,
        {
            assert(row_records(rows@).take(j as int).drop_last() =~= row_records(rows@).take(j - 1));
            if !found && same_chars(&chars_of(rows[j - 1].0.as_str()), &key) {
                found = true;
                w = j - 1;
            }
            j = j - 1;
        }
        assert(found);
        assert(last_record(recs, p) == Some(row_record(rows@[w as int])));
        let kind = rows[w].1.clone();
        let required = match doc_get_in(doc_get_in(doc_get(&d, "rules"), "required_files"), kind.as_str()) {
            Some(DocValue::List(items)) => doc_texts(items),
            _ => {
                let e: Vec<String> = Vec::new();
                assert(string_views(e@) =~= Seq::<Seq<char>>::empty());
                e
            },
        };
        let m = CodemapModule {
            path: rows[w].0.clone(),
            kind,
            notes: rows[w].2.clone(),
            status: rows[w].3.clone(),
            required,
        };
        let ghost before = out@;
        out.push(m);
        assert(out@.map_values(|m: CodemapModule| m.path@) =~= before.map_values(
            |m: CodemapModule| m.path@,
        ).push(p));
        k = k + 1;
    }
    assert(views(sorted@).take(sorted@.len() as int) =~= views(sorted@));
    Some(out)
}

} // verus!
