//! Template maintenance: what each template profile keeps, reviews and may
//! remove; the backend-core audit of the root entry files; and the choice of
//! the SemVer baseline tag.
use vstd::prelude::*;

use crate::gate::string_views;
use crate::numtext::{decimal, parse_unsigned, parse_u64, push_decimal};
use crate::sorting::{lemma_lex_asymmetric, lemma_lex_irreflexive, lemma_lex_total, lemma_lex_transitive, lex_less, lex_lt};
use crate::pattern::{pattern_match, regex_compiles, regex_replace_first, regex_replace_first_result};
use crate::text::{chars_of, contains, contains_chars, find, same_chars, has_prefix, has_suffix, occurs_at, starts_with, lines, push_chars, push_str, slice, split, split_lines, split_on, string_of, trim, trim_chars};

verus! {

/// The template profiles.
#[derive(Debug, Clone, Copy, PartialEq, Eq, Structural)]
pub enum TemplateProfile {
    BackendCore,
    BackendDesktop,
    FullResearch,
}

/// Label of a profile.
pub open spec fn profile_label(p: TemplateProfile) -> Seq<char> {
    match p {
        TemplateProfile::BackendCore => "backend-core"@,
        TemplateProfile::BackendDesktop => "backend-desktop"@,
        TemplateProfile::FullResearch => "full-research"@,
    }
}

impl TemplateProfile {
    /// `backend-core`, `backend-desktop` or `full-research`.
    pub fn label(self) -> (r: &'static str)
        ensures
            r@ == profile_label(self),
    {
        match self {
            TemplateProfile::BackendCore => "backend-core",
            TemplateProfile::BackendDesktop => "backend-desktop",
            TemplateProfile::FullResearch => "full-research",
        }
    }
}

/// Whether template init only plans or applies.
#[derive(Debug, Clone, Copy, PartialEq, Eq, Structural)]
pub enum TemplateInitMode {
    DryRun,
    Apply,
}

impl TemplateInitMode {
    /// `dry-run` or `apply`.
    pub fn label(self) -> (r: &'static str)
        ensures
            r@ == (match self {
                TemplateInitMode::DryRun => "dry-run"@,
                TemplateInitMode::Apply => "apply"@,
            }),
    {
        match self {
            TemplateInitMode::DryRun => "dry-run",
            TemplateInitMode::Apply => "apply",
        }
    }
}

/// Whether the backend-core audit only reports or fails on findings.
#[derive(Debug, Clone, Copy, PartialEq, Eq, Structural)]
pub enum BackendCoreAuditMode {
    DryRun,
    Strict,
}

impl BackendCoreAuditMode {
    /// `dry-run` or `strict`.
    pub fn label(self) -> (r: &'static str)
        ensures
            r@ == (match self {
                BackendCoreAuditMode::DryRun => "dry-run"@,
                BackendCoreAuditMode::Strict => "strict"@,
            }),
    {
        match self {
            BackendCoreAuditMode::DryRun => "dry-run",
            BackendCoreAuditMode::Strict => "strict",
        }
    }
}

/// What a profile keeps, leaves for manual review, and may remove.
#[derive(Debug, Clone)]
pub struct TemplatePlan {
    pub keep: Vec<&'static str>,
    pub review: Vec<&'static str>,
    pub remove_candidates: Vec<&'static str>,
}

/// Views of string slices.
pub open spec fn str_views(v: Seq<&str>) -> Seq<Seq<char>> {
    v.map_values(|s: &str| s@)
}

/// What the backend-core profile keeps.
pub open spec fn backend_core_keep() -> Seq<Seq<char>> {
    seq![
        "README.md"@, "LICENSE"@, "AGENTS.md"@, "agent/**"@, "docs/operations/**"@,
        "docs/contracts/README.md"@, "services/counter-service/**"@, "servers/bff/web-bff/**"@,
        "workers/outbox-relay/**"@, "workers/projector/**"@, "packages/contracts/**"@,
        "packages/kernel/**"@, "packages/platform/**"@, "packages/messaging/**"@, "packages/data/**"@,
        "packages/data-traits/**"@, "packages/data-adapters/turso/**"@, "packages/observability/**"@,
        "infra/**"@, "Justfile"@, "moon.yml"@, "justfiles/setup.just"@, "justfiles/dev.just"@,
        "justfiles/build.just"@, "justfiles/verify.just"@, "justfiles/ops.just"@, "justfiles/clean.just"@,
        "justfiles/platform.just"@, "justfiles/sops.just"@, "justfiles/template.just"@,
        "justfiles/skills.just"@, "tools/repo-tools/**"@,
    ]
}

/// What the backend-core profile leaves for manual review.
pub open spec fn backend_core_review() -> Seq<Seq<char>> {
    seq![
        "CONTRIBUTING.md"@, "CODE_OF_CONDUCT.md"@, "docs/template-users/**"@, ".github/workflows/**"@,
        "verification/**"@, "services/tenant-service/**"@,
    ]
}

/// What the backend-core profile may remove.
pub open spec fn backend_core_remove() -> Seq<Seq<char>> {
    seq![
        "apps/**"@, "packages/ui/**"@, "verification/e2e/**"@, "docs/governance/**"@, "docs/archive/**"@,
        "release-plz.toml"@, "release-plz.template.toml"@, ".github/workflows/release-plz.yml"@,
        "tools/repo-release/**"@, ".github/ISSUE_TEMPLATE/**"@, ".github/pull_request_template.md"@,
    ]
}

/// The plan of each profile, as keep, review and removal lists.
pub open spec fn plan_spec(p: TemplateProfile) -> (Seq<Seq<char>>, Seq<Seq<char>>, Seq<Seq<char>>) {
    match p {
        TemplateProfile::BackendCore => (backend_core_keep(), backend_core_review(), backend_core_remove()),
        TemplateProfile::BackendDesktop => (
            seq!["everything in backend-core"@, "apps/desktop/**"@],
            seq!["agent/**"@, "docs/architecture/**"@, "docs/archive/**"@],
            seq!["agent/**"@, "docs/architecture/**"@],
        ),
        TemplateProfile::FullResearch => (seq!["entire repository"@], Seq::empty(), Seq::empty()),
    }
}

/// The plan of a template profile.
pub fn template_plan(profile: TemplateProfile) -> (r: TemplatePlan)
    ensures
        (str_views(r.keep@), str_views(r.review@), str_views(r.remove_candidates@)) == plan_spec(profile),
{
    let r = match profile {
        TemplateProfile::BackendCore => TemplatePlan {
            keep: vec![
                "README.md", "LICENSE", "AGENTS.md", "agent/**", "docs/operations/**",
                "docs/contracts/README.md", "services/counter-service/**", "servers/bff/web-bff/**",
                "workers/outbox-relay/**", "workers/projector/**", "packages/contracts/**",
                "packages/kernel/**", "packages/platform/**", "packages/messaging/**", "packages/data/**",
                "packages/data-traits/**", "packages/data-adapters/turso/**", "packages/observability/**",
                "infra/**", "Justfile", "moon.yml", "justfiles/setup.just", "justfiles/dev.just",
                "justfiles/build.just", "justfiles/verify.just", "justfiles/ops.just", "justfiles/clean.just",
                "justfiles/platform.just", "justfiles/sops.just", "justfiles/template.just",
                "justfiles/skills.just", "tools/repo-tools/**",
            ],
            review: vec![
                "CONTRIBUTING.md", "CODE_OF_CONDUCT.md", "docs/template-users/**", ".github/workflows/**",
                "verification/**", "services/tenant-service/**",
            ],
            remove_candidates: vec![
                "apps/**", "packages/ui/**", "verification/e2e/**", "docs/governance/**", "docs/archive/**",
                "release-plz.toml", "release-plz.template.toml", ".github/workflows/release-plz.yml",
                "tools/repo-release/**", ".github/ISSUE_TEMPLATE/**", ".github/pull_request_template.md",
            ],
        },
        TemplateProfile::BackendDesktop => TemplatePlan {
            keep: vec!["everything in backend-core", "apps/desktop/**"],
            review: vec!["agent/**", "docs/architecture/**", "docs/archive/**"],
            remove_candidates: vec!["agent/**", "docs/architecture/**"],
        },
        TemplateProfile::FullResearch => TemplatePlan {
            keep: vec!["entire repository"],
            review: Vec::new(),
            remove_candidates: Vec::new(),
        },
    };
    assert(str_views(r.keep@) =~= plan_spec(profile).0);
    assert(str_views(r.review@) =~= plan_spec(profile).1);
    assert(str_views(r.remove_candidates@) =~= plan_spec(profile).2);
    r
}

/// The path a removal pattern names: the pattern without a trailing `/**`.
pub open spec fn removal_target(pattern: Seq<char>) -> Seq<char> {
    if has_suffix(pattern, "/**"@) {
        pattern.take(pattern.len() - 3)
    } else {
        pattern
    }
}

/// The path that removing `pattern` removes.
pub fn removal_path(pattern: &str) -> (r: String)
    ensures
        r@ == removal_target(pattern@),
{
    proof {
        reveal_strlit("/**");
    }
    let p = chars_of(pattern);
    if crate::text::ends_with(&p, &chars_of("/**")) {
        string_of(&slice(&p, 0, p.len() - 3))
    } else {
        pattern.to_string()
    }
}

// ---------------------------------------------------------------------------
// Backend-core audit
// ---------------------------------------------------------------------------

/// The root entry files of the backend core.
pub open spec fn entry_files_spec() -> Seq<Seq<char>> {
    seq![
        ".moon/workspace.yml"@, "moon.yml"@, "Justfile"@, "justfiles/setup.just"@, "justfiles/build.just"@,
        "justfiles/dev.just"@, "justfiles/verify.just"@, "justfiles/ops.just"@, "justfiles/platform.just"@,
        "justfiles/sops.just"@, "justfiles/template.just"@, "justfiles/skills.just"@,
    ]
}

/// The root entry files of the backend core, which must not refer to app
/// shells.
pub fn backend_entry_files() -> (r: Vec<&'static str>)
    ensures
        str_views(r@) == entry_files_spec(),
{
    let r = vec![
        ".moon/workspace.yml", "moon.yml", "Justfile", "justfiles/setup.just", "justfiles/build.just",
        "justfiles/dev.just", "justfiles/verify.just", "justfiles/ops.just", "justfiles/platform.just",
        "justfiles/sops.just", "justfiles/template.just", "justfiles/skills.just",
    ];
    assert(str_views(r@) =~= entry_files_spec());
    r
}

/// References that the backend-core entry files must not hold.
pub open spec fn needles_spec() -> Seq<Seq<char>> {
    seq![
        "apps/web"@, "apps/desktop"@, "apps/mobile"@, "apps/browser-extension"@, "packages/ui"@, "web:"@,
        "desktop-tauri:"@, "apps/client"@,
    ]
}

/// References that the backend-core entry files must not hold.
pub fn forbidden_needles() -> (r: Vec<&'static str>)
    ensures
        str_views(r@) == needles_spec(),
{
    let r = vec![
        "apps/web", "apps/desktop", "apps/mobile", "apps/browser-extension", "packages/ui", "web:",
        "desktop-tauri:", "apps/client",
    ];
    assert(str_views(r@) =~= needles_spec());
    r
}

/// A forbidden reference in an entry file.
#[derive(Debug, Clone)]
pub struct Finding {
    /// `<file>:<line number>`.
    pub file: String,
    pub needle: &'static str,
    /// The line, trimmed.
    pub context: String,
}

/// A finding as plain values.
pub open spec fn finding_view(f: Finding) -> (Seq<char>, Seq<char>, Seq<char>) {
    (f.file@, f.needle@, f.context@)
}

/// `s` with `\` turned into `/`.
pub open spec fn forward_slashes(s: Seq<char>) -> Seq<char> {
    s.map_values(|c: char| if c == '\\' { '/' } else { c })
}

/// The findings of one line (numbered from 1), needle by needle.
pub open spec fn line_findings(file: Seq<char>, n: nat, line: Seq<char>, needles: Seq<Seq<char>>) -> Seq<(Seq<char>, Seq<char>, Seq<char>)>
    decreases needles.len(),
{
    if needles.len() == 0 {
        Seq::empty()
    } else {
        let rest = line_findings(file, n, line, needles.drop_last());
        if contains(line, needles.last()) {
            rest.push((forward_slashes(file) + ":"@ + decimal(n), needles.last(), trim(line)))
        } else {
            rest
        }
    }
}

/// The findings of the first lines, in order.
pub open spec fn text_findings(file: Seq<char>, ls: Seq<Seq<char>>) -> Seq<(Seq<char>, Seq<char>, Seq<char>)>
    decreases ls.len(),
{
    if ls.len() == 0 {
        Seq::empty()
    } else {
        text_findings(file, ls.drop_last()) + line_findings(file, ls.len(), ls.last(), needles_spec())
    }
}

/// Views of findings.
pub open spec fn finding_views(v: Seq<Finding>) -> Seq<(Seq<char>, Seq<char>, Seq<char>)> {
    v.map_values(|f: Finding| finding_view(f))
}

/// `s` with backslashes turned into slashes.
pub(crate) fn forward(s: &str) -> (r: Vec<char>)
    ensures
        r@ == forward_slashes(s@),
{
    let c = chars_of(s);
    let mut out: Vec<char> = Vec::new();
    let mut i: usize = 0;
    while i < c.len()
        invariant
            i <= c@.len(),
            c@ == s@,
            out@ == forward_slashes(c@.take(i as int)),
        decreases c@.len() - i,
    {
        if c[i] == '\\' {
            out.push('/');
        } else {
            out.push(c[i]);
        }
        proof {
            assert(forward_slashes(c@.take(i + 1)) =~= forward_slashes(c@.take(i as int)).push(
                if c@[i as int] == '\\' { '/' } else { c@[i as int] },
            ));
        }
        i = i + 1;
    }
    assert(c@.take(c@.len() as int) =~= c@);
    out
}

/// The forbidden references in the text of an entry file: for each line
/// (numbered from 1) and each needle it holds, the file and line number, the
/// needle, and the trimmed line.
pub fn scan_entry_text(file: &str, content: &str) -> (r: Vec<Finding>)
    ensures
        finding_views(r@) == text_findings(file@, lines(content@)),
{
    let name = forward(file);
    let ls = split_lines(&chars_of(content));
    let ghost lv = lines(content@);
    let needles = forbidden_needles();
    let mut out: Vec<Finding> = Vec::new();
    let mut i: usize = 0;
    while i < ls.len()
        invariant
            i <= ls@.len(),
            ls@.len() == lv.len(),
            lv == lines(content@),
            forall|k: int| 0 <= k < ls@.len() ==> #[trigger] ls@[k]@ == lv[k],
            name@ == forward_slashes(file@),
            str_views(needles@) == needles_spec(),
            finding_views(out@) == text_findings(file@, lv.take(i as int)),
        decreases ls@.len() - i,
    {
        proof {
            assert(lv.take(i + 1).drop_last() =~= lv.take(i as int));
            assert(lv.take(i + 1).last() == ls@[i as int]@);
        }
        let line = &ls[i];
        let ghost base = finding_views(out@);
        let mut k: usize = 0;
        while k < needles.len()
            invariant
                k <= needles@.len(),
                i < ls.len(),
                name@ == forward_slashes(file@),
                str_views(needles@) == needles_spec(),
                finding_views(out@) == base + line_findings(file@, (i + 1) as nat, line@, needles_spec().take(k as int)),
            decreases needles@.len() - k,
        {
            proof {
                assert(needles_spec().take(k + 1).drop_last() =~= needles_spec().take(k as int));
                assert(needles_spec()[k as int] == needles@[k as int]@);
            }
            let needle = needles[k];
            if contains_chars(line, &chars_of(needle)) {
                let mut f = slice(&name, 0, name.len());
                f.push(':');
                push_decimal(&mut f, (i + 1) as u64);
                let ghost before = finding_views(out@);
                out.push(Finding { file: string_of(&f), needle, context: string_of(&trim_chars(line)) });
                proof {
                    reveal_strlit(":");
                    assert(f@ =~= forward_slashes(file@) + ":"@ + decimal((i + 1) as nat));
                    assert(finding_views(out@) =~= before.push((forward_slashes(file@) + ":"@ + decimal((i + 1) as nat), needle@, trim(line@))));
                }
            }
            k = k + 1;
        }
        assert(needles_spec().take(needles@.len() as int) =~= needles_spec());
        i = i + 1;
    }
    assert(lv.take(ls@.len() as int) =~= lv);
    out
}

// ---------------------------------------------------------------------------
// SemVer baseline
// ---------------------------------------------------------------------------

/// `s` without its leading `c`s (`str::trim_start_matches` on a char).
pub open spec fn trim_start_char(s: Seq<char>, c: char) -> Seq<char>
    decreases s.len(),
{
    if s.len() > 0 && s[0] == c {
        trim_start_char(s.drop_first(), c)
    } else {
        s
    }
}

/// The numeric parts of a version tag: the tag without leading `v`s, split
/// at `.`, each part read as a `u64` (0 where it is not one).
pub open spec fn version_parts_spec(tag: Seq<char>) -> Seq<nat> {
    split(trim_start_char(tag, 'v'), '.').map_values(|p: Seq<char>| match parse_unsigned(p, u64::MAX as nat) {
        Some(n) => n,
        None => 0nat,
    })
}

/// The numeric parts of a version tag.
pub fn version_parts(tag: &str) -> (r: Vec<u64>)
    ensures
        r@.map_values(|x: u64| x as nat) == version_parts_spec(tag@),
{
    let c = chars_of(tag);
    let mut a: usize = 0;
    assert(c@.skip(0) =~= c@);
    while a < c.len() && c[a] == 'v'
        invariant
            a <= c@.len(),
            trim_start_char(c@.skip(a as int), 'v') == trim_start_char(c@, 'v'),
        decreases c@.len() - a,
    {
        proof {
            assert(c@.skip(a as int).drop_first() =~= c@.skip(a + 1));
        }
        a = a + 1;
    }
    let rest = slice(&c, a, c.len());
    assert(rest@ =~= c@.skip(a as int));
    let parts = split_on(&rest, '.');
    let ghost pv = parts@.map_values(|x: Vec<char>| x@);
    let mut out: Vec<u64> = Vec::new();
    let mut i: usize = 0;
    while i < parts.len()
        invariant
            i <= parts@.len(),
            pv == parts@.map_values(|x: Vec<char>| x@),
            pv == split(trim_start_char(tag@, 'v'), '.'),
            out@.map_values(|x: u64| x as nat) == pv.take(i as int).map_values(|p: Seq<char>| match parse_unsigned(p, u64::MAX as nat) {
                Some(n) => n,
                None => 0nat,
            }),
        decreases parts@.len() - i,
    {
        let n: u64 = match parse_u64(&parts[i]) {
            Some(v) => v,
            None => 0,
        };
        let ghost before = out@.map_values(|x: u64| x as nat);
        out.push(n);
        proof {
            assert(pv[i as int] == parts@[i as int]@);
            assert(out@.map_values(|x: u64| x as nat) =~= before.push(n as nat));
            assert(pv.take(i + 1).map_values(|p: Seq<char>| match parse_unsigned(p, u64::MAX as nat) {
                Some(n) => n,
                None => 0nat,
            }) =~= pv.take(i as int).map_values(|p: Seq<char>| match parse_unsigned(p, u64::MAX as nat) {
                Some(n) => n,
                None => 0nat,
            }).push(match parse_unsigned(pv[i as int], u64::MAX as nat) {
                Some(n) => n,
                None => 0nat,
            }));
        }
        i = i + 1;
    }
    assert(pv.take(parts@.len() as int) =~= pv);
    out
}

/// `a` sorts strictly before `b` as sequences of numbers (the order of
/// `Vec<u64>`).
pub open spec fn parts_lt(a: Seq<nat>, b: Seq<nat>) -> bool
    decreases a.len(),
{
    if a.len() == 0 {
        b.len() > 0
    } else if b.len() == 0 {
        false
    } else if a[0] != b[0] {
        a[0] < b[0]
    } else {
        parts_lt(a.drop_first(), b.drop_first())
    }
}

/// Tag `a` sorts before tag `b`: by version parts, then as text.
pub open spec fn tag_lt(a: Seq<char>, b: Seq<char>) -> bool {
    parts_lt(version_parts_spec(a), version_parts_spec(b)) || (version_parts_spec(a) == version_parts_spec(b)
        && lex_lt(a, b))
}

/// Whether `a` sorts before `b` as sequences of numbers.
fn parts_less(a: &Vec<u64>, b: &Vec<u64>) -> (r: bool)
    ensures
        r == parts_lt(a@.map_values(|x: u64| x as nat), b@.map_values(|x: u64| x as nat)),
{
    let ghost av = a@.map_values(|x: u64| x as nat);
    let ghost bv = b@.map_values(|x: u64| x as nat);
    let mut i: usize = 0;
    assert(av.skip(0) =~= av);
    assert(bv.skip(0) =~= bv);
    while i < a.len() && i < b.len() && a[i] == b[i]
        invariant
            i <= a@.len(),
            i <= b@.len(),
            av == a@.map_values(|x: u64| x as nat),
            bv == b@.map_values(|x: u64| x as nat),
            parts_lt(av, bv) == parts_lt(av.skip(i as int), bv.skip(i as int)),
        decreases a@.len() - i,
    {
        proof {
            assert(av.skip(i as int).drop_first() =~= av.skip(i + 1));
            assert(bv.skip(i as int).drop_first() =~= bv.skip(i + 1));
        }
        i = i + 1;
    }
    if i == a.len() {
        i < b.len()
    } else if i == b.len() {
        false
    } else {
        a[i] < b[i]
    }
}

/// Whether tag `a` sorts before tag `b`.
pub fn tag_less(a: &str, b: &str) -> (r: bool)
    ensures
        r == tag_lt(a@, b@),
{
    let pa = version_parts(a);
    let pb = version_parts(b);
    if parts_less(&pa, &pb) {
        return true;
    }
    if parts_less(&pb, &pa) {
        return false;
    }
    proof {
        lemma_parts_total(pa@.map_values(|x: u64| x as nat), pb@.map_values(|x: u64| x as nat));
    }
    lex_less(&chars_of(a), &chars_of(b))
}

proof fn lemma_parts_total(a: Seq<nat>, b: Seq<nat>)
    requires
        !parts_lt(a, b),
        !parts_lt(b, a),
    ensures
        a == b,
    decreases a.len(),
{
    if a.len() > 0 && b.len() > 0 && a[0] == b[0] {
        lemma_parts_total(a.drop_first(), b.drop_first());
        assert(a =~= seq![a[0]] + a.drop_first());
        assert(b =~= seq![b[0]] + b.drop_first());
    } else if a.len() == 0 && b.len() == 0 {
        assert(a =~= b);
    }
}

proof fn lemma_parts_irreflexive(a: Seq<nat>)
    ensures
        !parts_lt(a, a),
    decreases a.len(),
{
    if a.len() > 0 {
        lemma_parts_irreflexive(a.drop_first());
    }
}

proof fn lemma_parts_transitive(a: Seq<nat>, b: Seq<nat>, c: Seq<nat>)
    requires
        parts_lt(a, b),
        parts_lt(b, c),
    ensures
        parts_lt(a, c),
    decreases a.len(),
{
    if a.len() > 0 && b.len() > 0 && c.len() > 0 && a[0] == b[0] && b[0] == c[0] {
        lemma_parts_transitive(a.drop_first(), b.drop_first(), c.drop_first());
    }
}

proof fn lemma_parts_asymmetric(a: Seq<nat>, b: Seq<nat>)
    requires
        parts_lt(a, b),
    ensures
        !parts_lt(b, a),
    decreases a.len(),
{
    if a.len() > 0 && b.len() > 0 && a[0] == b[0] {
        lemma_parts_asymmetric(a.drop_first(), b.drop_first());
    }
}

/// Tags sort totally: of two different tags, one sorts before the other, and
/// never both.
pub proof fn law_tag_order_total(a: Seq<char>, b: Seq<char>)
    ensures
        a != b ==> (tag_lt(a, b) || tag_lt(b, a)),
        !(tag_lt(a, b) && tag_lt(b, a)),
        !tag_lt(a, a),
{
    lemma_parts_irreflexive(version_parts_spec(a));
    lemma_lex_irreflexive(a);
    if a != b {
        if !parts_lt(version_parts_spec(a), version_parts_spec(b)) && !parts_lt(version_parts_spec(b), version_parts_spec(a)) {
            lemma_parts_total(version_parts_spec(a), version_parts_spec(b));
            lemma_lex_total(a, b);
        }
    }
    if parts_lt(version_parts_spec(a), version_parts_spec(b)) {
        lemma_parts_asymmetric(version_parts_spec(a), version_parts_spec(b));
    }
    if parts_lt(version_parts_spec(b), version_parts_spec(a)) {
        lemma_parts_asymmetric(version_parts_spec(b), version_parts_spec(a));
    }
    if lex_lt(a, b) {
        lemma_lex_asymmetric(a, b);
    }
}

proof fn lemma_tag_transitive(a: Seq<char>, b: Seq<char>, c: Seq<char>)
    requires
        tag_lt(a, b),
        tag_lt(b, c),
    ensures
        tag_lt(a, c),
{
    let (pa, pb, pc) = (version_parts_spec(a), version_parts_spec(b), version_parts_spec(c));
    if parts_lt(pa, pb) && parts_lt(pb, pc) {
        lemma_parts_transitive(pa, pb, pc);
    } else if lex_lt(a, b) && lex_lt(b, c) && pa == pb && pb == pc {
        lemma_lex_transitive(a, b, c);
    }
}

/// The candidate tags of `git tag -l` output: its lines, trimmed, non-empty.
pub open spec fn tag_candidates(output: Seq<char>) -> Seq<Seq<char>>
    decreases lines(output).len(),
{
    candidates_of(lines(output))
}

/// The trimmed, non-empty lines, in order.
pub open spec fn candidates_of(ls: Seq<Seq<char>>) -> Seq<Seq<char>>
    decreases ls.len(),
{
    if ls.len() == 0 {
        Seq::empty()
    } else {
        let rest = candidates_of(ls.drop_last());
        if trim(ls.last()).len() > 0 {
            rest.push(trim(ls.last()))
        } else {
            rest
        }
    }
}

/// The latest tag among `git tag -l` output: the one that sorts last (by
/// version parts, then as text); `None` where there is none.
pub fn latest_tag(output: &str) -> (r: Option<String>)
    ensures
        r is None <==> tag_candidates(output@).len() == 0,
        r matches Some(t) ==> tag_candidates(output@).contains(t@) && forall|i: int|
            0 <= i < tag_candidates(output@).len() ==> !tag_lt(t@, #[trigger] tag_candidates(output@)[i]),
{
    let ls = split_lines(&chars_of(output));
    let ghost lv = lines(output@);
    let mut best: Option<String> = None;
    let mut i: usize = 0;
    while i < ls.len()
        invariant
            i <= ls@.len(),
            ls@.len() == lv.len(),
            lv == lines(output@),
            forall|k: int| 0 <= k < ls@.len() ==> #[trigger] ls@[k]@ == lv[k],
            best is None <==> candidates_of(lv.take(i as int)).len() == 0,
            best matches Some(t) ==> candidates_of(lv.take(i as int)).contains(t@) && forall|j: int|
                0 <= j < candidates_of(lv.take(i as int)).len() ==> !tag_lt(t@, #[trigger] candidates_of(lv.take(i as int))[j]),
        decreases ls@.len() - i,
    {
        let ghost prev = candidates_of(lv.take(i as int));
        proof {
            assert(lv.take(i + 1).drop_last() =~= lv.take(i as int));
            assert(lv.take(i + 1).last() == ls@[i as int]@);
        }
        let t = trim_chars(&ls[i]);
        if t.len() > 0 {
            let ts = string_of(&t);
            let replace = match &best {
                None => true,
                Some(b) => !tag_less(ts.as_str(), b.as_str()),
            };
            let ghost old_best = best;
            if replace {
                best = Some(ts);
            }
            proof {
                let now = candidates_of(lv.take(i + 1));
                assert(now == prev.push(t@));
                match &best {
                    Some(bb) => {
                        assert forall|j: int| 0 <= j < now.len() implies !tag_lt(bb@, #[trigger] now[j]) by {
                            law_tag_order_total(bb@, now[j]);
                            if replace {
                                if j < prev.len() {
                                    match old_best {
                                        Some(ob) => {
                                            assert(!tag_lt(ob@, prev[j]));
                                            assert(!tag_lt(t@, ob@));
                                            law_tag_order_total(ob@, prev[j]);
                                            law_tag_order_total(t@, ob@);
                                            if tag_lt(t@, prev[j]) {
                                                if ob@ != t@ {
                                                    lemma_tag_transitive(ob@, t@, prev[j]);
                                                }
                                            }
                                        },
                                        None => {},
                                    }
                                }
                            } else {
                                if j == prev.len() {
                                    match old_best {
                                        Some(ob) => {
                                            assert(tag_less_holds(t@, ob@));
                                            law_tag_order_total(t@, ob@);
                                        },
                                        None => {},
                                    }
                                }
                            }
                        }
                        if replace {
                            assert(now[now.len() - 1] == bb@);
                        } else {
                            let k = choose|k: int| 0 <= k < prev.len() && prev[k] == bb@;
                            assert(now[k] == bb@);
                        }
                    },
                    None => {},
                }
            }
        } else {
            proof {
                assert(candidates_of(lv.take(i + 1)) == prev);
            }
        }
        i = i + 1;
    }
    assert(lv.take(ls@.len() as int) =~= lv);
    best
}

/// `a` sorts before `b` (named for proofs).
pub open spec fn tag_less_holds(a: Seq<char>, b: Seq<char>) -> bool {
    tag_lt(a, b)
}


// ---------------------------------------------------------------------------
// Repository release anchor
// ---------------------------------------------------------------------------

/// How the root manifest begins while it carries the release anchor package.
pub const PACKAGE_ANCHOR: &'static str = "[package]\nname = \"axum-harness\"\n";

/// The line that opens the workspace table of the root manifest.
pub const WORKSPACE_ANCHOR: &'static str = "\n[workspace]\n";

/// Pattern of the anchor package's library and lints tables.
pub const RELEASE_LIB_PATTERN: &'static str = r#"\n\[lib\]\npath = "tools/repo-release/src/lib\.rs"\n\n\[lints\]\nworkspace = true\n"#;

/// `p` first occurs in `s` at `k`.
pub open spec fn first_at(s: Seq<char>, p: Seq<char>, k: int) -> bool {
    occurs_at(s, p, k) && forall|j: int| 0 <= j < k ==> !occurs_at(s, p, j)
}

/// The root manifest without the release anchor: where the manifest begins
/// with the anchor package and has a workspace table, everything before that
/// table's line is dropped and the anchor's library and lints tables (first
/// match) become one newline. Returns `Some(None)` where nothing changes
/// (no anchor, no workspace table, or the same text) and `Some(Some(text))`
/// with the text to write otherwise; `None` where the anchor is present and
/// the library pattern does not compile.
pub fn release_anchor_removal(manifest: &str) -> (r: Option<Option<String>>)
    ensures
        !has_prefix(manifest@, PACKAGE_ANCHOR@) ==> r matches Some(None),
        has_prefix(manifest@, PACKAGE_ANCHOR@) ==> (r is Some <==> regex_compiles(RELEASE_LIB_PATTERN@)),
        has_prefix(manifest@, PACKAGE_ANCHOR@) && !contains(manifest@, WORKSPACE_ANCHOR@) && r is Some ==> r matches Some(None),
        forall|k: int| #![trigger first_at(manifest@, WORKSPACE_ANCHOR@, k)]
            has_prefix(manifest@, PACKAGE_ANCHOR@) && first_at(manifest@, WORKSPACE_ANCHOR@, k) && r is Some ==> {
                let next = regex_replace_first_result(RELEASE_LIB_PATTERN@, manifest@.subrange(k + 1, manifest@.len() as int), "\n"@);
                &&& (next == manifest@ ==> r matches Some(None))
                &&& (next != manifest@ ==> (r matches Some(Some(t)) && t@ == next))
            },
{
    let o = chars_of(manifest);
    if !starts_with(&o, &chars_of(PACKAGE_ANCHOR)) {
        return Some(None);
    }
    if regex_replace_first(RELEASE_LIB_PATTERN, "", "").is_none() {
        return None;
    }
    let ws = chars_of(WORKSPACE_ANCHOR);
    proof {
        reveal_strlit("\n[workspace]\n");
    }
    assert(ws@.len() == 13);
    match find(&o, &ws) {
        None => Some(None),
        Some(k) => {
            let n = o.len();
            assert(occurs_at(o@, ws@, k as int));
            let rest = string_of(&slice(&o, k + 1, n));
            let next = regex_replace_first(RELEASE_LIB_PATTERN, rest.as_str(), "\n").unwrap();
            proof {
                assert forall|k2: int| first_at(manifest@, WORKSPACE_ANCHOR@, k2) implies k2 == k as int by {
                    if k2 < k as int {
                    } else if k2 > k as int {
                        assert(!occurs_at(manifest@, WORKSPACE_ANCHOR@, k as int));
                    }
                }
            }
            if same_chars(&chars_of(next.as_str()), &o) {
                Some(None)
            } else {
                Some(Some(next))
            }
        },
    }
}

/// A removal pattern and a kept pattern overlap when either names the
/// other, or a path under it.
pub open spec fn overlaps(remove: Seq<char>, keep: Seq<char>) -> bool {
    remove == keep || pattern_match(removal_target(remove), keep) || pattern_match(removal_target(keep), remove)
}

/// Applying a plan never removes what it keeps: no removal candidate of any
/// profile overlaps one of its kept patterns, and the full-research profile
/// removes nothing.
/// Two patterns whose named paths differ at some index (before the last two
/// characters of a pattern without `/**`) do not overlap.
proof fn lemma_apart(r: Seq<char>, k: Seq<char>, i: int)
    requires
        0 <= i,
        i < removal_target(r).len(),
        i < removal_target(k).len(),
        has_suffix(r, "/**"@) || i + 2 < r.len(),
        has_suffix(k, "/**"@) || i + 2 < k.len(),
        removal_target(r)[i] != removal_target(k)[i],
    ensures
        !overlaps(r, k),
{
    lemma_match_agrees(removal_target(r), k, i);
    lemma_match_agrees(removal_target(k), r, i);
}

/// A path that a pattern matches agrees with the path the pattern names
/// (before the last two characters of a pattern without `/**`).
proof fn lemma_match_agrees(t: Seq<char>, p: Seq<char>, i: int)
    requires
        0 <= i,
        i < removal_target(p).len(),
        has_suffix(p, "/**"@) || i + 2 < p.len(),
        i < t.len(),
    ensures
        pattern_match(t, p) ==> t[i] == removal_target(p)[i],
        removal_target(p).len() <= p.len(),
        forall|x: int| 0 <= x < removal_target(p).len() ==> #[trigger] removal_target(p)[x] == p[x],
{
    if has_suffix(p, seq!['/', '*', '*']) {
        assert(seq!['/', '*', '*'] =~= "/**"@) by {
            reveal_strlit("/**");
        }
        let base = p.subrange(0, p.len() - 3);
        if pattern_match(t, p) && t != base {
            assert(t.subrange(0, base.len() + 1int)[i] == t[i]);
        }
    } else {
        assert(!has_suffix(p, "/**"@)) by {
            reveal_strlit("/**");
            assert(seq!['/', '*', '*'] =~= "/**"@);
        }
        if has_suffix(p, seq!['/', '*']) {
            let base = p.subrange(0, p.len() - 2);
            if pattern_match(t, p) {
                assert(t.subrange(0, base.len() + 1int)[i] == t[i]);
            }
        }
    }
}

pub proof fn law_plan_keeps_what_it_keeps(p: TemplateProfile)
    ensures
        forall|i: int, j: int|
            0 <= i < plan_spec(p).2.len() && 0 <= j < plan_spec(p).0.len() ==> !overlaps(
                #[trigger] plan_spec(p).2[i],
                #[trigger] plan_spec(p).0[j],
            ),
        plan_spec(TemplateProfile::FullResearch).2.len() == 0,
{
    reveal_strlit(".github/ISSUE_TEMPLATE/**");
    reveal_strlit(".github/pull_request_template.md");
    reveal_strlit(".github/workflows/release-plz.yml");
    reveal_strlit("/*");
    reveal_strlit("/**");
    reveal_strlit("AGENTS.md");
    reveal_strlit("Justfile");
    reveal_strlit("LICENSE");
    reveal_strlit("README.md");
    reveal_strlit("agent/**");
    reveal_strlit("apps/**");
    reveal_strlit("docs/archive/**");
    reveal_strlit("docs/contracts/README.md");
    reveal_strlit("docs/governance/**");
    reveal_strlit("docs/operations/**");
    reveal_strlit("infra/**");
    reveal_strlit("justfiles/build.just");
    reveal_strlit("justfiles/clean.just");
    reveal_strlit("justfiles/dev.just");
    reveal_strlit("justfiles/ops.just");
    reveal_strlit("justfiles/platform.just");
    reveal_strlit("justfiles/setup.just");
    reveal_strlit("justfiles/skills.just");
    reveal_strlit("justfiles/sops.just");
    reveal_strlit("justfiles/template.just");
    reveal_strlit("justfiles/verify.just");
    reveal_strlit("moon.yml");
    reveal_strlit("packages/contracts/**");
    reveal_strlit("packages/data-adapters/turso/**");
    reveal_strlit("packages/data-traits/**");
    reveal_strlit("packages/data/**");
    reveal_strlit("packages/kernel/**");
    reveal_strlit("packages/messaging/**");
    reveal_strlit("packages/observability/**");
    reveal_strlit("packages/platform/**");
    reveal_strlit("packages/ui/**");
    reveal_strlit("release-plz.template.toml");
    reveal_strlit("release-plz.toml");
    reveal_strlit("servers/bff/web-bff/**");
    reveal_strlit("services/counter-service/**");
    reveal_strlit("tools/repo-release/**");
    reveal_strlit("tools/repo-tools/**");
    reveal_strlit("verification/e2e/**");
    reveal_strlit("workers/outbox-relay/**");
    reveal_strlit("workers/projector/**");
    reveal_strlit("everything in backend-core");
    reveal_strlit("apps/desktop/**");
    reveal_strlit("docs/architecture/**");
    reveal_strlit("entire repository");
    assert forall|i: int, j: int|
        0 <= i < plan_spec(p).2.len() && 0 <= j < plan_spec(p).0.len() implies !overlaps(
            #[trigger] plan_spec(p).2[i],
            #[trigger] plan_spec(p).0[j],
        ) by {
        let r = plan_spec(p).2[i];
        let k = plan_spec(p).0[j];
        let rt = removal_target(r);
        let kt = removal_target(k);
        if rt[0] != kt[0] {
            lemma_apart(r, k, 0);
        } else if rt[1] != kt[1] {
            lemma_apart(r, k, 1);
        } else if rt[5] != kt[5] {
            lemma_apart(r, k, 5);
        } else if rt[9] != kt[9] {
            lemma_apart(r, k, 9);
        } else {
            lemma_apart(r, k, 11);
        }
    }
}

} // verus!
