//! Path patterns of the repository rules (`dir/**`, `dir/*`, exact paths),
//! module identity, source:target exceptions, and comment stripping of Rust
//! sources.
use vstd::prelude::*;

use crate::text::{
    chars_of, contains, ends_with, find_char, has_prefix, has_suffix, same_chars, slice,
    split, split_on, split_once, starts_with, string_of, contains_chars,
};

verus! {

/// `base` followed by a `/`.
pub open spec fn dir_prefix(base: Seq<char>) -> Seq<char> {
    base.push('/')
}

/// Whether the path `target` matches `pattern`:
/// - `base/**` matches `base` itself and every path below `base`;
/// - `base/*` matches the paths exactly one segment below `base`;
/// - anything else matches only the identical path.
pub open spec fn pattern_match(target: Seq<char>, pattern: Seq<char>) -> bool {
    if has_suffix(pattern, seq!['/', '*', '*']) {
        let base = pattern.subrange(0, pattern.len() - 3);
        target == base || has_prefix(target, dir_prefix(base))
    } else if has_suffix(pattern, seq!['/', '*']) {
        let base = pattern.subrange(0, pattern.len() - 2);
        let rest = target.subrange(base.len() as int + 1, target.len() as int);
        has_prefix(target, dir_prefix(base)) && rest.len() > 0 && !rest.contains('/')
    } else {
        target == pattern
    }
}

/// The first two segments of the two paths exist and agree.
pub open spec fn same_module_spec(source: Seq<char>, target: Seq<char>) -> bool {
    let a = split(source, '/');
    let b = split(target, '/');
    a.len() > 1 && b.len() > 1 && a[0] == b[0] && a[1] == b[1]
}

/// The source and target patterns of an exception entry: `src:dst`, or the
/// whole entry with target `*` when it holds no `:`.
pub open spec fn exception_parts(entry: Seq<char>) -> (Seq<char>, Seq<char>) {
    match split_once(entry, ':') {
        Some(parts) => parts,
        None => (entry, seq!['*']),
    }
}

/// The exception entry allows an edge from `source` to `target`.
pub open spec fn exception_allows(entry: Seq<char>, source: Seq<char>, target: Seq<char>) -> bool {
    let (sp, tp) = exception_parts(entry);
    pattern_match(source, sp) && (tp == seq!['*'] || pattern_match(target, tp))
}

/// Some exception entry allows the edge.
pub open spec fn excepted(source: Seq<char>, target: Seq<char>, exceptions: Seq<Seq<char>>) -> bool {
    exists|i: int| 0 <= i < exceptions.len() && exception_allows(exceptions[i], source, target)
}

fn pattern_matches_chars(target: &[char], pattern: &[char]) -> (r: bool)
    ensures
        r == pattern_match(target@, pattern@),
{
    let any_below = ['/', '*', '*'];
    let one_below = ['/', '*'];
    let mut with_stars: Vec<char> = slice(target, 0, target.len());
    with_stars.push('/');
    with_stars.push('*');
    with_stars.push('*');
    assert(any_below@ =~= seq!['/', '*', '*']);
    assert(one_below@ =~= seq!['/', '*']);
    if same_chars(pattern, &with_stars) {
        assert(pattern@.subrange(pattern@.len() - 3, pattern@.len() as int) =~= seq!['/', '*', '*']);
        assert(has_suffix(pattern@, seq!['/', '*', '*']));
        assert(pattern@.subrange(0, pattern@.len() - 3) =~= target@);
        return true;
    }
    if ends_with(pattern, &any_below) {
        let base = slice(pattern, 0, pattern.len() - 3);
        if same_chars(target, &base) {
            return true;
        }
        let mut dir = base;
        dir.push('/');
        assert(dir@ == dir_prefix(pattern@.subrange(0, pattern@.len() - 3)));
        return starts_with(target, &dir);
    }
    if ends_with(pattern, &one_below) {
        assert(!has_suffix(pattern@, seq!['/', '*', '*'])) by {
            if has_suffix(pattern@, seq!['/', '*', '*']) {
                assert(pattern@[pattern@.len() - 2] == '*');
                assert(pattern@[pattern@.len() - 2] == '/');
            }
        }
        let mut dir = slice(pattern, 0, pattern.len() - 2);
        dir.push('/');
        if !starts_with(target, &dir) {
            return false;
        }
        assert(dir@ == dir_prefix(pattern@.subrange(0, pattern@.len() - 2)));
        let rest = slice(target, dir.len(), target.len());
        proof {
            crate::text::lemma_index_of_contains(rest@, '/');
        }
        return rest.len() > 0 && find_char(&rest, '/').is_none();
    }
    same_chars(target, pattern)
}

/// Whether the path `target` matches the rule pattern `pattern`.
pub fn pattern_matches(target: &str, pattern: &str) -> (r: bool)
    ensures
        r == pattern_match(target@, pattern@),
{
    let t = chars_of(target);
    let p = chars_of(pattern);
    pattern_matches_chars(&t, &p)
}

/// Whether the two paths lie in the same module: both have at least two
/// `/`-separated segments and their first two segments agree.
pub fn same_module(source: &str, target: &str) -> (r: bool)
    ensures
        r == same_module_spec(source@, target@),
{
    let s = chars_of(source);
    let t = chars_of(target);
    let a = split_on(&s, '/');
    let b = split_on(&t, '/');
    a.len() > 1 && b.len() > 1 && same_chars(&a[0], &b[0]) && same_chars(&a[1], &b[1])
}

fn exception_allows_chars(entry: &[char], source: &[char], target: &[char]) -> (r: bool)
    ensures
        r == exception_allows(entry@, source@, target@),
{
    let star = ['*'];
    assert(star@ =~= seq!['*']);
    proof {
        crate::text::lemma_index_of_range(entry@, ':');
    }
    match find_char(entry, ':') {
        Some(i) => {
            let n = entry.len();
            assert(i < n);
            let sp = slice(entry, 0, i);
            let tp = slice(entry, i + 1, n);
            pattern_matches_chars(source, &sp) && (same_chars(&tp, &star)
                || pattern_matches_chars(target, &tp))
        },
        None => {
            pattern_matches_chars(source, entry) && (same_chars(&star, &star)
                || pattern_matches_chars(target, &star))
        },
    }
}

/// Whether some entry of `exceptions` (`source_pattern:target_pattern`, or a
/// bare source pattern that allows every target) allows the edge from
/// `source` to `target`.
pub fn except_path(source: &str, target: &str, exceptions: &[String]) -> (r: bool)
    ensures
        r == excepted(source@, target@, exceptions@.map_values(|e: String| e@)),
{
    let s = chars_of(source);
    let t = chars_of(target);
    let ghost ex = exceptions@.map_values(|e: String| e@);
    let mut i: usize = 0;
    while i < exceptions.len()
        invariant
            i <= exceptions.len(),
            s@ == source@,
            t@ == target@,
            ex == exceptions@.map_values(|e: String| e@),
            forall|j: int| 0 <= j < i ==> !exception_allows(ex[j], source@, target@),
        decreases exceptions.len() - i,
    {
        let e = chars_of(exceptions[i].as_str());
        assert(ex[i as int] == e@);
        if exception_allows_chars(&e, &s, &t) {
            return true;
        }
        i = i + 1;
    }
    assert(!excepted(source@, target@, ex));
    false
}

// ---------------------------------------------------------------------------
// Comment stripping
// ---------------------------------------------------------------------------

/// Regular expression that matches block comments.
pub const BLOCK_COMMENT: &'static str = r"/\*[\s\S]*?\*/";

/// Regular expression that matches whole lines holding only a line comment.
pub const LINE_COMMENT: &'static str = r"(?m)^\s*//.*$";

/// Whether `regex::Regex::new(pattern)` succeeds.
pub uninterp spec fn regex_compiles(pattern: Seq<char>) -> bool;

/// What `regex::Regex::replace_all(text, rep)` returns for the regex built
/// from `pattern`.
pub uninterp spec fn regex_replace_all_result(
    pattern: Seq<char>,
    text: Seq<char>,
    rep: Seq<char>,
) -> Seq<char>;

/// Compiles `pattern` with `regex::Regex::new` and, where that succeeds,
/// replaces every non-overlapping match in `text` by `rep` with
/// `Regex::replace_all`. Claims only that the result is `None` exactly when
/// the pattern does not compile, and otherwise the named replacement result.
#[verifier::external_body]
fn regex_replace_all(pattern: &str, text: &str, rep: &str) -> (r: Option<String>)
    ensures
        r is Some == regex_compiles(pattern@),
        r matches Some(s) ==> s@ == regex_replace_all_result(pattern@, text@, rep@),
{
    match regex::Regex::new(pattern) {
        Ok(re) => Some(re.replace_all(text, rep).into_owned()),
        Err(_) => None,
    }
}

/// What `regex::Regex::replace(text, rep)` returns for the regex built from
/// `pattern`: `text` with its first match replaced.
pub uninterp spec fn regex_replace_first_result(
    pattern: Seq<char>,
    text: Seq<char>,
    rep: Seq<char>,
) -> Seq<char>;

/// Compiles `pattern` with `regex::Regex::new` and, where that succeeds,
/// replaces the first match in `text` by `rep` with `Regex::replace`. Claims
/// only that the result is `None` exactly when the pattern does not compile,
/// and otherwise the named replacement result.
#[verifier::external_body]
pub(crate) fn regex_replace_first(pattern: &str, text: &str, rep: &str) -> (r: Option<String>)
    ensures
        r is Some == regex_compiles(pattern@),
        r matches Some(s) ==> s@ == regex_replace_first_result(pattern@, text@, rep@),
{
    match regex::Regex::new(pattern) {
        Ok(re) => Some(re.replace(text, rep).into_owned()),
        Err(_) => None,
    }
}

/// Whether the regex built from `pattern` matches somewhere in `text`
/// (`regex::Regex::is_match`).
pub uninterp spec fn regex_match_result(pattern: Seq<char>, text: Seq<char>) -> bool;

/// Compiles `pattern` with `regex::Regex::new` and tests `text` with
/// `Regex::is_match`. Claims only that the result is `None` exactly when the
/// pattern does not compile, and otherwise the named match result.
#[verifier::external_body]
pub(crate) fn regex_is_match(pattern: &str, text: &str) -> (r: Option<bool>)
    ensures
        r is Some == regex_compiles(pattern@),
        r matches Some(b) ==> b == regex_match_result(pattern@, text@),
{
    match regex::Regex::new(pattern) {
        Ok(re) => Some(re.is_match(text)),
        Err(_) => None,
    }
}

/// The successive non-overlapping matches of the regex built from `pattern`
/// in `text` (`Regex::captures_iter`): for each, the byte offset where the
/// whole match begins and the text of capture group `group`, if it took part.
pub uninterp spec fn regex_captures_result(pattern: Seq<char>, text: Seq<char>, group: nat) -> Seq<
    (nat, Option<Seq<char>>),
>;

/// Captures as plain values.
pub open spec fn capture_views(v: Seq<(usize, Option<String>)>) -> Seq<(nat, Option<Seq<char>>)> {
    v.map_values(
        |c: (usize, Option<String>)|
            (
                c.0 as nat,
                match c.1 {
                    Some(s) => Some(s@),
                    None => None,
                },
            ),
    )
}

/// Compiles `pattern` with `regex::Regex::new` and lists, with
/// `Regex::captures_iter`, each match's start offset and the text of group
/// `group`. Claims only that the result is `None` exactly when the pattern
/// does not compile, and otherwise the named list.
#[verifier::external_body]
pub(crate) fn regex_captures(pattern: &str, text: &str, group: usize) -> (r: Option<Vec<(usize, Option<String>)>>)
    ensures
        r is Some == regex_compiles(pattern@),
        r matches Some(v) ==> capture_views(v@) == regex_captures_result(pattern@, text@, group as nat),
{
    let re = regex::Regex::new(pattern).ok()?;
    Some(re.captures_iter(text).map(|c| (c.get(0).map(|m| m.start()).unwrap_or(0), c.get(group).map(|m| m.as_str().to_string()))).collect())
}

/// Group `group` of the first match, if there is a match and the group took
/// part in it (`Regex::captures` followed by `get`).
pub open spec fn first_capture(pattern: Seq<char>, text: Seq<char>, group: nat) -> Option<Seq<char>> {
    let c = regex_captures_result(pattern, text, group);
    if c.len() == 0 {
        None
    } else {
        c[0].1
    }
}

/// Group `group` of the first match of `pattern` in `text`; `None` (outer)
/// where the pattern does not compile.
pub fn regex_first_capture(pattern: &str, text: &str, group: usize) -> (r: Option<Option<String>>)
    ensures
        r is Some == regex_compiles(pattern@),
        r matches Some(g) ==> match g {
            Some(s) => first_capture(pattern@, text@, group as nat) == Some(s@),
            None => first_capture(pattern@, text@, group as nat) is None,
        },
{
    match regex_captures(pattern, text, group) {
        None => None,
        Some(v) => {
            if v.len() == 0 {
                Some(None)
            } else {
                let ghost cv = capture_views(v@);
                assert(cv[0] == (v@[0].0 as nat, match v@[0].1 { Some(s) => Some(s@), None => None }));
                match &v[0].1 {
                    Some(s) => Some(Some(s.clone())),
                    None => Some(None),
                }
            }
        },
    }
}

/// Both comment patterns compile.
pub open spec fn comment_patterns_compile() -> bool {
    regex_compiles(BLOCK_COMMENT@) && regex_compiles(LINE_COMMENT@)
}

/// `source` with block comments removed, then with lines that hold only a
/// line comment emptied.
pub open spec fn stripped(source: Seq<char>) -> Seq<char> {
    regex_replace_all_result(
        LINE_COMMENT@,
        regex_replace_all_result(BLOCK_COMMENT@, source, Seq::empty()),
        Seq::empty(),
    )
}

/// `source` without its comments; `None` where a comment pattern does not
/// compile.
pub fn strip_rust_comments(source: &str) -> (r: Option<String>)
    ensures
        r is Some == comment_patterns_compile(),
        r matches Some(s) ==> s@ == stripped(source@),
{
    assert(""@ =~= Seq::<char>::empty()) by {
        reveal_strlit("");
    }
    match regex_replace_all(BLOCK_COMMENT, source, "") {
        Some(without_block) => regex_replace_all(LINE_COMMENT, without_block.as_str(), ""),
        None => None,
    }
}

/// The four markers of unsafe Rust.
pub open spec fn unsafe_markers() -> Seq<Seq<char>> {
    seq![
        seq!['u', 'n', 's', 'a', 'f', 'e', ' ', '{'],
        seq!['u', 'n', 's', 'a', 'f', 'e', ' ', 'f', 'n'],
        seq!['u', 'n', 's', 'a', 'f', 'e', ' ', 'i', 'm', 'p', 'l'],
        seq!['#', '[', 'u', 'n', 's', 'a', 'f', 'e'],
    ]
}

/// `code` holds one of the markers of unsafe Rust.
pub open spec fn has_unsafe_marker_spec(code: Seq<char>) -> bool {
    exists|i: int| 0 <= i < unsafe_markers().len() && contains(code, #[trigger] unsafe_markers()[i])
}

/// Whether comment-free `code` holds `unsafe {`, `unsafe fn`, `unsafe impl`
/// or `#[unsafe`.
pub fn has_unsafe_marker(code: &str) -> (r: bool)
    ensures
        r == has_unsafe_marker_spec(code@),
{
    let c = chars_of(code);
    let m0 = ['u', 'n', 's', 'a', 'f', 'e', ' ', '{'];
    let m1 = ['u', 'n', 's', 'a', 'f', 'e', ' ', 'f', 'n'];
    let m2 = ['u', 'n', 's', 'a', 'f', 'e', ' ', 'i', 'm', 'p', 'l'];
    let m3 = ['#', '[', 'u', 'n', 's', 'a', 'f', 'e'];
    let r = contains_chars(&c, &m0) || contains_chars(&c, &m1) || contains_chars(&c, &m2)
        || contains_chars(&c, &m3);
    assert(m0@ == unsafe_markers()[0]);
    assert(m1@ == unsafe_markers()[1]);
    assert(m2@ == unsafe_markers()[2]);
    assert(m3@ == unsafe_markers()[3]);
    r
}

/// Whether `content` holds unsafe Rust outside comments.
pub fn contains_unsafe_code(content: &str) -> (r: bool)
    requires
        comment_patterns_compile(),
    ensures
        r == has_unsafe_marker_spec(stripped(content@)),
{
    match strip_rust_comments(content) {
        Some(code) => has_unsafe_marker(code.as_str()),
        None => false,
    }
}

/// Whether `content` holds unsafe Rust outside comments; `None` where the
/// comment patterns do not compile.
pub fn scan_unsafe_code(content: &str) -> (r: Option<bool>)
    ensures
        r is Some == comment_patterns_compile(),
        r matches Some(b) ==> b == has_unsafe_marker_spec(stripped(content@)),
{
    match strip_rust_comments("") {
        Some(_) => Some(contains_unsafe_code(content)),
        None => None,
    }
}


// ---------------------------------------------------------------------------
// Laws of path patterns
// ---------------------------------------------------------------------------

/// `base/**` matches `base` itself and every path that `base/*` matches.
pub proof fn law_recursive_covers_single(target: Seq<char>, base: Seq<char>)
    ensures
        pattern_match(base, base + seq!['/', '*', '*']),
        pattern_match(target, base + seq!['/', '*']) ==> pattern_match(target, base + seq!['/', '*', '*']),
{
    let any = base + seq!['/', '*', '*'];
    let one = base + seq!['/', '*'];
    assert(any.subrange(any.len() - 3, any.len() as int) =~= seq!['/', '*', '*']);
    assert(any.subrange(0, any.len() - 3) =~= base);
    assert(one.subrange(one.len() - 2, one.len() as int) =~= seq!['/', '*']);
    assert(one.subrange(0, one.len() - 2) =~= base);
    if has_suffix(one, seq!['/', '*', '*']) {
        assert(one[one.len() - 2] == '/');
        assert(one.subrange(one.len() - 3, one.len() as int)[1] == '*');
    }
}

/// Module identity is symmetric.
pub proof fn law_same_module_symmetric(source: Seq<char>, target: Seq<char>)
    ensures
        same_module_spec(source, target) == same_module_spec(target, source),
{
}

} // verus!
