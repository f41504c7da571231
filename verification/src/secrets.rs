//! Secret handling: decrypted environment exports, checks of the shared
//! counter database secret, token masking, and age key files.
use vstd::prelude::*;

use crate::doc::{
    doc_get, doc_get_in, doc_text, entries_of, get, get_in, opt_doc_text, opt_text, parse_yaml, text_of,
    yaml_document, DocValue,
};
use crate::sorting::{lex_less, lex_lt};
use crate::text::{
    byte_len, byte_boundary, chars_of, has_prefix, lines, push_chars, push_str, same_chars,
    slice, split_lines, starts_with, string_of, utf8_width, width_of,
};

verus! {

// ---------------------------------------------------------------------------
// Token masking
// ---------------------------------------------------------------------------

/// The last `k` characters of `s` take exactly `b` bytes.
pub open spec fn suffix_boundary(s: Seq<char>, b: int, k: int) -> bool {
    0 <= k <= s.len() && byte_len(s.skip(k)) == b
}

/// A token long enough to be partly shown has character boundaries four
/// bytes from either end (where slicing it does not panic).
pub open spec fn maskable(v: Seq<char>) -> bool {
    byte_len(v) <= 8 || ((exists|k: int| byte_boundary(v, 4, k)) && (exists|k: int|
        suffix_boundary(v, 4, k)))
}

/// A token as printed: `***` for tokens of at most 8 bytes, else its first
/// four bytes, `***`, and its last four bytes.
pub open spec fn masked(v: Seq<char>) -> Seq<char> {
    if byte_len(v) <= 8 {
        "***"@
    } else {
        let k1 = choose|k: int| byte_boundary(v, 4, k);
        let k2 = choose|k: int| suffix_boundary(v, 4, k);
        v.take(k1) + "***"@ + v.skip(k2)
    }
}

proof fn lemma_suffix_cons(s: Seq<char>, k: int)
    requires
        0 < k <= s.len(),
    ensures
        byte_len(s.skip(k - 1)) == utf8_width(s[k - 1]) + byte_len(s.skip(k)),
{
    assert(s.skip(k - 1) =~= seq![s[k - 1]] + s.skip(k));
    crate::text::lemma_byte_len_cons(s[k - 1], s.skip(k));
}

proof fn lemma_suffix_mono(s: Seq<char>, i: int, j: int)
    requires
        0 <= i <= j <= s.len(),
    ensures
        byte_len(s.skip(j)) + (j - i) <= byte_len(s.skip(i)),
    decreases j - i,
{
    if i < j {
        lemma_suffix_mono(s, i + 1, j);
        lemma_suffix_cons(s, i + 1);
    }
}

/// Whether `s` takes more than `n` bytes.
fn byte_len_exceeds(s: &[char], n: usize) -> (r: bool)
    ensures
        r == (byte_len(s@) > n),
{
    let mut acc: usize = 0;
    let mut k: usize = 0;
    assert(s@.take(0) =~= Seq::<char>::empty());
    while k < s.len()
        invariant
            k <= s.len(),
            acc <= n,
            acc as nat == byte_len(s@.take(k as int)),
        decreases s.len() - k,
    {
        let w = width_of(s[k]);
        proof {
            assert(s@.take(k + 1).drop_last() == s@.take(k as int));
        }
        if w > n - acc {
            proof {
                crate::text::lemma_byte_len_take_mono(s@, k + 1, s.len() as int);
                assert(s@.take(s.len() as int) == s@);
            }
            return true;
        }
        acc = acc + w;
        k = k + 1;
    }
    assert(s@.take(s.len() as int) == s@);
    false
}

/// Character index where the last `b` bytes of `s` begin, if that is a
/// character boundary.
fn suffix_index(s: &[char], b: usize) -> (r: Option<usize>)
    ensures
        r matches Some(k) ==> suffix_boundary(s@, b as int, k as int),
        r is None ==> forall|k: int| !suffix_boundary(s@, b as int, k),
{
    let mut acc: usize = 0;
    let mut k: usize = s.len();
    assert(s@.skip(s.len() as int) =~= Seq::<char>::empty());
    while k > 0 && acc < b
        invariant
            k <= s.len(),
            acc <= b,
            acc as nat == byte_len(s@.skip(k as int)),
        decreases k,
    {
        let w = width_of(s[k - 1]);
        proof {
            lemma_suffix_cons(s@, k as int);
        }
        if w > b - acc {
            proof {
                assert forall|j: int| !suffix_boundary(s@, b as int, j) by {
                    if 0 <= j <= s.len() {
                        if j < k {
                            lemma_suffix_mono(s@, j, k - 1);
                        } else if j > k {
                            lemma_suffix_mono(s@, k as int, j);
                        }
                    }
                }
            }
            return None;
        }
        acc = acc + w;
        k = k - 1;
    }
    if acc == b {
        Some(k)
    } else {
        proof {
            assert forall|j: int| !suffix_boundary(s@, b as int, j) by {
                if 0 <= j <= s.len() && j > k {
                    lemma_suffix_mono(s@, k as int, j);
                }
            }
        }
        None
    }
}

/// The token as it may be printed: `***` for tokens of at most eight bytes,
/// otherwise its first four bytes, `***` and its last four bytes.
pub fn mask_token(value: &str) -> (r: String)
    requires
        maskable(value@),
    ensures
        r@ == masked(value@),
{
    let v = chars_of(value);
    if !byte_len_exceeds(&v, 8) {
        return "***".to_string();
    }
    let k1 = match crate::text::char_index_at_byte(&v, 4) {
        Some(k) => k,
        None => {
            assert(false);
            0
        },
    };
    let k2 = match suffix_index(&v, 4) {
        Some(k) => k,
        None => {
            assert(false);
            0
        },
    };
    proof {
        let c1 = choose|k: int| byte_boundary(v@, 4, k);
        crate::text::lemma_byte_boundary_unique(v@, 4, k1 as int, c1);
        let c2 = choose|k: int| suffix_boundary(v@, 4, k);
        if c2 != k2 as int {
            if c2 < k2 {
                lemma_suffix_mono(v@, c2, k2 as int);
            } else {
                lemma_suffix_mono(v@, k2 as int, c2);
            }
        }
    }
    let mut out = slice(&v, 0, k1);
    push_str(&mut out, "***");
    let tail = slice(&v, k2, v.len());
    push_chars(&mut out, &tail);
    assert(out@ =~= masked(value@));
    string_of(&out)
}

// ---------------------------------------------------------------------------
// Environment exports
// ---------------------------------------------------------------------------

/// Map of `(key, value)` entries where a later entry of a key replaces an
/// earlier one.
pub open spec fn entries_map(entries: Seq<(Seq<char>, Seq<char>)>) -> Map<Seq<char>, Seq<char>>
    decreases entries.len(),
{
    if entries.len() == 0 {
        Map::empty()
    } else {
        entries_map(entries.drop_last()).insert(entries.last().0, entries.last().1)
    }
}

/// Views of an export list.
pub open spec fn export_views(v: Seq<(String, String)>) -> Seq<(Seq<char>, Seq<char>)> {
    v.map_values(|e: (String, String)| (e.0@, e.1@))
}

/// Keys sort strictly increasing: the list is a sorted map.
pub open spec fn sorted_keys(v: Seq<(Seq<char>, Seq<char>)>) -> bool {
    forall|i: int, j: int| 0 <= i < j < v.len() ==> lex_lt(#[trigger] v[i].0, #[trigger] v[j].0)
}

/// Sets `key` to `value` in the sorted export list (replacing an older value).
pub fn insert_export(exports: &mut Vec<(String, String)>, key: String, value: String)
    requires
        sorted_keys(export_views(old(exports)@)),
    ensures
        sorted_keys(export_views(final(exports)@)),
        entries_map(export_views(final(exports)@)) == entries_map(
            export_views(old(exports)@),
        ).insert(key@, value@),
{
    let ghost old_v = export_views(exports@);
    let k = chars_of(key.as_str());
    let mut i: usize = 0;
    while i < exports.len() && lex_less(&chars_of(exports[i].0.as_str()), &k)
        invariant
            i <= exports@.len(),
            exports@ == old(exports)@,
            old_v == export_views(exports@),
            k@ == key@,
            sorted_keys(old_v),
            forall|j: int| 0 <= j < i ==> lex_lt(#[trigger] old_v[j].0, key@),
        decreases exports@.len() - i,
    {
        i = i + 1;
    }
    if i < exports.len() && same_chars(&chars_of(exports[i].0.as_str()), &k) {
        let ghost idx = i as int;
        exports.set(i, (key, value));
        proof {
            lemma_entries_map_replace(old_v, idx, key@, value@);
            assert(export_views(exports@) =~= old_v.update(idx, (key@, value@)));
        }
        return;
    }
    proof {
        if i < exports@.len() {
            crate::sorting::lemma_lex_total(old_v[i as int].0, key@);
        }
    }
    exports.insert(i, (key, value));
    proof {
        let nv = export_views(exports@);
        assert(nv =~= old_v.insert(i as int, (key@, value@)));
        lemma_entries_map_insert(old_v, i as int, key@, value@);
    }
}

proof fn lemma_entries_map_keys(v: Seq<(Seq<char>, Seq<char>)>)
    ensures
        forall|x: Seq<char>| entries_map(v).dom().contains(x) <==> exists|j: int|
            0 <= j < v.len() && #[trigger] v[j].0 == x,
        forall|j: int| 0 <= j < v.len() && (forall|m: int| j < m < v.len() ==> v[m].0 != v[j].0)
            ==> entries_map(v)[#[trigger] v[j].0] == v[j].1,
    decreases v.len(),
{
    if v.len() > 0 {
        let u = v.drop_last();
        lemma_entries_map_keys(u);
        assert forall|x: Seq<char>| entries_map(v).dom().contains(x) implies exists|j: int|
            0 <= j < v.len() && #[trigger] v[j].0 == x by {
            if x == v.last().0 {
                assert(v[v.len() - 1].0 == x);
            } else {
                assert(entries_map(u).dom().contains(x));
                let j = choose|j: int| 0 <= j < u.len() && #[trigger] u[j].0 == x;
                assert(u[j] == v[j]);
                assert(v[j].0 == x);
            }
        }
        assert forall|x: Seq<char>| (exists|j: int| 0 <= j < v.len() && #[trigger] v[j].0 == x) implies entries_map(v).dom().contains(x) by {
            let j = choose|j: int| 0 <= j < v.len() && #[trigger] v[j].0 == x;
            if j < u.len() {
                assert(u[j] == v[j]);
                assert(u[j].0 == x);
                assert(entries_map(u).dom().contains(x));
            }
        }
        assert forall|j: int| 0 <= j < v.len() && (forall|m: int| j < m < v.len() ==> v[m].0 != v[j].0)
            implies entries_map(v)[#[trigger] v[j].0] == v[j].1 by {
            if j < u.len() {
                assert(u[j] == v[j]);
                assert forall|m: int| j < m < u.len() implies u[m].0 != u[j].0 by {
                    assert(u[m] == v[m]);
                }
            }
        }
    }
}

proof fn lemma_sorted_unique(v: Seq<(Seq<char>, Seq<char>)>, j: int)
    requires
        sorted_keys(v),
        0 <= j < v.len(),
    ensures
        forall|m: int| j < m < v.len() ==> v[m].0 != v[j].0,
        forall|m: int| 0 <= m < v.len() && m != j ==> v[m].0 != v[j].0,
{
    assert forall|m: int| 0 <= m < v.len() && m != j implies v[m].0 != v[j].0 by {
        if m < j {
            assert(lex_lt(v[m].0, v[j].0));
            crate::sorting::lemma_lex_irreflexive(v[j].0);
        } else {
            assert(lex_lt(v[j].0, v[m].0));
            crate::sorting::lemma_lex_irreflexive(v[j].0);
        }
    }
}

proof fn lemma_sorted_map_ext(a: Seq<(Seq<char>, Seq<char>)>, b: Seq<(Seq<char>, Seq<char>)>, m: Map<Seq<char>, Seq<char>>)
    requires
        sorted_keys(b),
        forall|x: Seq<char>| m.dom().contains(x) <==> exists|j: int| 0 <= j < b.len() && #[trigger] b[j].0 == x,
        forall|j: int| 0 <= j < b.len() ==> m[#[trigger] b[j].0] == b[j].1,
    ensures
        entries_map(b) == m,
{
    lemma_entries_map_keys(b);
    assert forall|j: int| 0 <= j < b.len() implies entries_map(b)[#[trigger] b[j].0] == b[j].1 by {
        lemma_sorted_unique(b, j);
    }
    assert forall|x: Seq<char>| entries_map(b).dom().contains(x) implies entries_map(b)[x] == m[x] by {
        let j = choose|j: int| 0 <= j < b.len() && #[trigger] b[j].0 == x;
        assert(entries_map(b)[b[j].0] == b[j].1);
    }
    assert(entries_map(b) =~= m);
}

proof fn lemma_entries_map_replace(v: Seq<(Seq<char>, Seq<char>)>, idx: int, key: Seq<char>, value: Seq<char>)
    requires
        sorted_keys(v),
        0 <= idx < v.len(),
        v[idx].0 == key,
    ensures
        sorted_keys(v.update(idx, (key, value))),
        entries_map(v.update(idx, (key, value))) == entries_map(v).insert(key, value),
{
    let w = v.update(idx, (key, value));
    assert forall|i: int, j: int| 0 <= i < j < w.len() implies lex_lt(#[trigger] w[i].0, #[trigger] w[j].0) by {
        assert(w[i].0 == v[i].0 && w[j].0 == v[j].0);
    }
    lemma_entries_map_keys(v);
    let m = entries_map(v).insert(key, value);
    assert forall|x: Seq<char>| m.dom().contains(x) <==> exists|j: int| 0 <= j < w.len() && #[trigger] w[j].0 == x by {
        if m.dom().contains(x) && x != key {
            let j = choose|j: int| 0 <= j < v.len() && #[trigger] v[j].0 == x;
            assert(w[j].0 == x);
        }
        if x == key {
            assert(w[idx].0 == x);
        }
        if exists|j: int| 0 <= j < w.len() && #[trigger] w[j].0 == x {
            let j = choose|j: int| 0 <= j < w.len() && #[trigger] w[j].0 == x;
            assert(v[j].0 == x);
        }
    }
    assert forall|j: int| 0 <= j < w.len() implies m[#[trigger] w[j].0] == w[j].1 by {
        if j != idx {
            lemma_sorted_unique(v, j);
            assert(entries_map(v)[v[j].0] == v[j].1);
        }
    }
    lemma_sorted_map_ext(v, w, m);
}

proof fn lemma_sorted_insert(v: Seq<(Seq<char>, Seq<char>)>, i: int, key: Seq<char>, value: Seq<char>)
    requires
        sorted_keys(v),
        0 <= i <= v.len(),
        forall|j: int| 0 <= j < i ==> lex_lt(#[trigger] v[j].0, key),
        i < v.len() ==> lex_lt(key, v[i].0),
    ensures
        sorted_keys(v.insert(i, (key, value))),
{
    let w = v.insert(i, (key, value));
    assert forall|a: int, b: int| 0 <= a < b < w.len() implies lex_lt(#[trigger] w[a].0, #[trigger] w[b].0) by {
        if b < i {
        } else if b == i {
        } else if a == i {
            if b - 1 > i {
                crate::sorting::lemma_lex_transitive(key, v[i].0, v[b - 1].0);
            }
        } else if a < i {
            assert(w[b] == v[b - 1]);
        } else {
            assert(w[a] == v[a - 1] && w[b] == v[b - 1]);
        }
    }
}

proof fn lemma_insert_dom(v: Seq<(Seq<char>, Seq<char>)>, i: int, key: Seq<char>, value: Seq<char>)
    requires
        0 <= i <= v.len(),
    ensures
        forall|x: Seq<char>| entries_map(v).insert(key, value).dom().contains(x) <==> exists|j: int|
            0 <= j < v.insert(i, (key, value)).len() && #[trigger] v.insert(i, (key, value))[j].0 == x,
{
    let w = v.insert(i, (key, value));
    let m = entries_map(v).insert(key, value);
    lemma_entries_map_keys(v);
    assert forall|x: Seq<char>| m.dom().contains(x) implies exists|j: int| 0 <= j < w.len() && #[trigger] w[j].0 == x by {
        if x == key {
            assert(w[i].0 == x);
        } else {
            assert(entries_map(v).dom().contains(x));
            let j = choose|j: int| 0 <= j < v.len() && #[trigger] v[j].0 == x;
            if j < i {
                assert(w[j].0 == x);
            } else {
                assert(w[j + 1].0 == x);
            }
        }
    }
    assert forall|x: Seq<char>| (exists|j: int| 0 <= j < w.len() && #[trigger] w[j].0 == x) implies m.dom().contains(x) by {
        let j = choose|j: int| 0 <= j < w.len() && #[trigger] w[j].0 == x;
        if j < i {
            assert(v[j].0 == x);
        } else if j > i {
            assert(v[j - 1].0 == x);
        }
    }
}

proof fn lemma_insert_vals(v: Seq<(Seq<char>, Seq<char>)>, i: int, key: Seq<char>, value: Seq<char>)
    requires
        sorted_keys(v),
        0 <= i <= v.len(),
        forall|j: int| 0 <= j < i ==> lex_lt(#[trigger] v[j].0, key),
        i < v.len() ==> lex_lt(key, v[i].0),
    ensures
        forall|j: int| 0 <= j < v.insert(i, (key, value)).len() ==> entries_map(v).insert(key, value)[
            #[trigger] v.insert(i, (key, value))[j].0] == v.insert(i, (key, value))[j].1,
{
    let w = v.insert(i, (key, value));
    let m = entries_map(v).insert(key, value);
    assert forall|j: int| 0 <= j < w.len() implies m[#[trigger] w[j].0] == w[j].1 by {
        if j < i {
            lemma_entries_map_keys(v);
            lemma_sorted_unique(v, j);
            assert(w[j] == v[j]);
            assert(entries_map(v)[v[j].0] == v[j].1);
            crate::sorting::lemma_lex_irreflexive(key);
        } else if j > i {
            lemma_entries_map_keys(v);
            lemma_sorted_unique(v, j - 1);
            assert(w[j] == v[j - 1]);
            assert(entries_map(v)[v[j - 1].0] == v[j - 1].1);
            if v[j - 1].0 == key {
                if j - 1 > i {
                    crate::sorting::lemma_lex_transitive(key, v[i].0, v[j - 1].0);
                }
                crate::sorting::lemma_lex_irreflexive(key);
            }
        }
    }
}

proof fn lemma_entries_map_insert(v: Seq<(Seq<char>, Seq<char>)>, i: int, key: Seq<char>, value: Seq<char>)
    requires
        sorted_keys(v),
        0 <= i <= v.len(),
        forall|j: int| 0 <= j < i ==> lex_lt(#[trigger] v[j].0, key),
        i < v.len() ==> lex_lt(key, v[i].0),
    ensures
        sorted_keys(v.insert(i, (key, value))),
        entries_map(v.insert(i, (key, value))) == entries_map(v).insert(key, value),
{
    let w = v.insert(i, (key, value));
    lemma_sorted_insert(v, i, key, value);
    lemma_insert_dom(v, i, key, value);
    lemma_insert_vals(v, i, key, value);
    lemma_sorted_map_ext(v, w, entries_map(v).insert(key, value));
}

/// A YAML mapping entry: the key and the value where each is a string.
pub type YamlEntry = (Option<String>, Option<String>);

/// View of YAML mapping entries.
pub open spec fn yaml_entry_views(v: Seq<YamlEntry>) -> Seq<(Option<Seq<char>>, Option<Seq<char>>)> {
    v.map_values(|e: YamlEntry| (opt_view(e.0), opt_view(e.1)))
}

pub open spec fn opt_view(o: Option<String>) -> Option<Seq<char>> {
    match o {
        Some(s) => Some(s@),
        None => None,
    }
}

/// The key and value texts of mapping entries.
pub open spec fn mapping_texts(e: Seq<(DocValue, DocValue)>) -> Seq<(Option<Seq<char>>, Option<Seq<char>>)> {
    e.map_values(|p: (DocValue, DocValue)| (text_of(p.0), text_of(p.1)))
}

/// The key and value texts of mapping entries.
fn entry_texts(e: &Vec<(DocValue, DocValue)>) -> (r: Vec<YamlEntry>)
    ensures
        yaml_entry_views(r@) == mapping_texts(e@),
{
    let mut out: Vec<YamlEntry> = Vec::new();
    let mut i: usize = 0;
    while i < e.len()
        invariant
            i <= e@.len(),
            yaml_entry_views(out@) =~= mapping_texts(e@.take(i as int)),
        decreases e@.len() - i,
    {
        let k = doc_text(&e[i].0);
        let v = doc_text(&e[i].1);
        let ghost before = out@;
        out.push((k, v));
        proof {
            assert(out@ == before.push((k, v)));
            assert(yaml_entry_views(out@) =~= yaml_entry_views(before).push((opt_view(k), opt_view(v))));
            assert(mapping_texts(e@.take(i + 1)) =~= mapping_texts(e@.take(i as int)).push(
                (text_of(e@[i as int].0), text_of(e@[i as int].1)),
            ));
        }
        i = i + 1;
    }
    assert(e@.take(e@.len() as int) =~= e@);
    out
}

/// The string key/value entries of a YAML mapping, in order.
pub open spec fn string_entries(v: Seq<(Option<Seq<char>>, Option<Seq<char>>)>) -> Seq<(Seq<char>, Seq<char>)>
    decreases v.len(),
{
    if v.len() == 0 {
        Seq::empty()
    } else {
        let rest = string_entries(v.drop_last());
        match v.last() {
            (Some(k), Some(x)) => rest.push((k, x)),
            _ => rest,
        }
    }
}

/// Why decrypted YAML yields no exports.
#[derive(Debug, Clone, PartialEq, Eq, Structural)]
pub enum ExportsError {
    /// The text is not YAML.
    InvalidYaml,
    /// Neither a `stringData` mapping nor a top-level mapping.
    NoMapping,
}

/// The exports of decrypted YAML: the string entries of `stringData` when it
/// is a mapping, else of the document when it is a mapping.
pub open spec fn exports_of(text: Seq<char>) -> Result<Map<Seq<char>, Seq<char>>, ExportsError> {
    match yaml_document(text) {
        None => Err(ExportsError::InvalidYaml),
        Some(d) => match (match get(d, "stringData"@) {
            Some(x) => entries_of(x),
            None => None,
        }) {
            Some(data) => Ok(entries_map(string_entries(mapping_texts(data)))),
            None => match entries_of(d) {
                Some(top) => Ok(entries_map(string_entries(mapping_texts(top)))),
                None => Err(ExportsError::NoMapping),
            },
        },
    }
}

fn collect_entries(entries: &Vec<YamlEntry>) -> (r: Vec<(String, String)>)
    ensures
        sorted_keys(export_views(r@)),
        entries_map(export_views(r@)) == entries_map(string_entries(yaml_entry_views(entries@))),
{
    let mut out: Vec<(String, String)> = Vec::new();
    let mut i: usize = 0;
    while i < entries.len()
        invariant
            i <= entries@.len(),
            sorted_keys(export_views(out@)),
            entries_map(export_views(out@)) == entries_map(
                string_entries(yaml_entry_views(entries@.take(i as int))),
            ),
        decreases entries@.len() - i,
    {
        let ghost tv = yaml_entry_views(entries@.take(i + 1));
        let ghost prev = string_entries(yaml_entry_views(entries@.take(i as int)));
        proof {
            assert(tv.drop_last() =~= yaml_entry_views(entries@.take(i as int)));
            assert(tv.last() == (opt_view(entries@[i as int].0), opt_view(entries@[i as int].1)));
        }
        match (&entries[i].0, &entries[i].1) {
            (Some(k), Some(v)) => {
                insert_export(&mut out, k.clone(), v.clone());
                proof {
                    assert(string_entries(tv) == prev.push((k@, v@)));
                    assert(prev.push((k@, v@)).drop_last() =~= prev);
                }
            },
            _ => {
                proof {
                    assert(string_entries(tv) == prev);
                }
            },
        }
        i = i + 1;
    }
    assert(entries@.take(entries@.len() as int) == entries@);
    out
}

/// The environment exports of decrypted secret YAML, sorted by key: the
/// string entries of its `stringData` mapping, or of the document itself
/// when it has none.
pub fn parse_env_exports(plain: &str) -> (r: Result<Vec<(String, String)>, ExportsError>)
    ensures
        match (r, exports_of(plain@)) {
            (Ok(v), Ok(m)) => sorted_keys(export_views(v@)) && entries_map(export_views(v@)) == m,
            (Err(e), Err(f)) => e == f,
            _ => false,
        },
{
    let doc = match parse_yaml(plain) {
        None => return Err(ExportsError::InvalidYaml),
        Some(d) => d,
    };
    match doc_get(&doc, "stringData") {
        Some(DocValue::Mapping(data)) => return Ok(collect_entries(&entry_texts(data))),
        _ => {},
    }
    match &doc {
        DocValue::Mapping(top) => Ok(collect_entries(&entry_texts(top))),
        _ => Err(ExportsError::NoMapping),
    }
}

/// The kind and name a decrypted secret manifest declares: `kind`, else
/// `unknown`, and `metadata.name`, else `fallback`.
pub open spec fn secret_object_spec(d: DocValue, fallback: Seq<char>) -> (Seq<char>, Seq<char>) {
    (
        match opt_text(get(d, "kind"@)) {
            Some(k) => k,
            None => "unknown"@,
        },
        match opt_text(get_in(get(d, "metadata"@), "name"@)) {
            Some(n) => n,
            None => fallback,
        },
    )
}

/// The kind and name a decrypted secret manifest declares; `None` where
/// the text is not YAML.
pub fn secret_object(plain: &str, fallback: &str) -> (r: Option<(String, String)>)
    ensures
        match yaml_document(plain@) {
            None => r is None,
            Some(d) => r matches Some((k, n)) && (k@, n@) == secret_object_spec(d, fallback@),
        },
{
    let d = match parse_yaml(plain) {
        None => return None,
        Some(d) => d,
    };
    let kind = match opt_doc_text(doc_get(&d, "kind")) {
        Some(k) => k,
        None => "unknown".to_string(),
    };
    let name = match opt_doc_text(doc_get_in(doc_get(&d, "metadata"), "name")) {
        Some(n) => n,
        None => fallback.to_string(),
    };
    Some((kind, name))
}

/// The value of `key` in a sorted export list, if present.
pub fn export_get(exports: &Vec<(String, String)>, key: &str) -> (r: Option<String>)
    requires
        sorted_keys(export_views(exports@)),
    ensures
        match r {
            Some(v) => entries_map(export_views(exports@)).dom().contains(key@) && entries_map(
                export_views(exports@),
            )[key@] == v@,
            None => !entries_map(export_views(exports@)).dom().contains(key@),
        },
{
    let ghost ev = export_views(exports@);
    proof {
        lemma_entries_map_keys(ev);
    }
    let k = chars_of(key);
    let mut i: usize = 0;
    while i < exports.len()
        invariant
            i <= exports@.len(),
            ev == export_views(exports@),
            k@ == key@,
            sorted_keys(ev),
            forall|j: int| 0 <= j < i ==> ev[j].0 != key@,
        decreases exports@.len() - i,
    {
        if same_chars(&chars_of(exports[i].0.as_str()), &k) {
            proof {
                lemma_entries_map_keys(ev);
                lemma_sorted_unique(ev, i as int);
                assert(ev[i as int].0 == key@);
                assert(entries_map(ev)[ev[i as int].0] == ev[i as int].1);
            }
            return Some(exports[i].1.clone());
        }
        i = i + 1;
    }
    None
}

// ---------------------------------------------------------------------------
// Shared counter database secret
// ---------------------------------------------------------------------------

/// Message for a missing or empty export.
pub open spec fn missing_message(key: Seq<char>) -> Seq<char> {
    key + " is empty or missing"@
}

/// Message for a database URL that still names a local file.
pub open spec fn local_file_message(name: Seq<char>, value: Seq<char>) -> Seq<char> {
    name + " still points to local file path: "@ + value
}

/// Message for a database URL without the `libsql://` scheme.
pub open spec fn scheme_message(name: Seq<char>, value: Seq<char>) -> Seq<char> {
    name + " must use libsql:// URL, got: "@ + value
}

/// Message for a token left at its template placeholder.
pub open spec fn placeholder_message(name: Seq<char>) -> Seq<char> {
    name + " still uses template placeholder"@
}

/// The value of `key`, which must be present and non-empty.
pub fn require_export(exports: &Vec<(String, String)>, key: &str) -> (r: Result<String, String>)
    requires
        sorted_keys(export_views(exports@)),
    ensures
        match r {
            Ok(v) => entries_map(export_views(exports@)).dom().contains(key@) && entries_map(
                export_views(exports@),
            )[key@] == v@ && v@.len() > 0,
            Err(m) => m@ == missing_message(key@) && (!entries_map(
                export_views(exports@),
            ).dom().contains(key@) || entries_map(export_views(exports@))[key@].len() == 0),
        },
{
    match export_get(exports, key) {
        Some(v) if !v.as_str().is_empty() => Ok(v),
        _ => {
            let mut m = chars_of(key);
            push_str(&mut m, " is empty or missing");
            Err(string_of(&m))
        },
    }
}

/// A database URL must use `libsql://` and not `file:`.
pub fn require_libsql_url(name: &str, value: &str) -> (r: Result<(), String>)
    ensures
        has_prefix(value@, "file:"@) ==> (r matches Err(m) && m@ == local_file_message(
            name@,
            value@,
        )),
        !has_prefix(value@, "file:"@) && !has_prefix(value@, "libsql://"@) ==> (
        r matches Err(m) && m@ == scheme_message(name@, value@)),
        !has_prefix(value@, "file:"@) && has_prefix(value@, "libsql://"@) ==> r is Ok,
{
    let v = chars_of(value);
    if starts_with(&v, &chars_of("file:")) {
        let mut m = chars_of(name);
        push_str(&mut m, " still points to local file path: ");
        push_chars(&mut m, &v);
        return Err(string_of(&m));
    }
    if !starts_with(&v, &chars_of("libsql://")) {
        let mut m = chars_of(name);
        push_str(&mut m, " must use libsql:// URL, got: ");
        push_chars(&mut m, &v);
        return Err(string_of(&m));
    }
    Ok(())
}

/// A token must not be the template placeholder.
pub fn require_real_token(name: &str, value: &str) -> (r: Result<(), String>)
    ensures
        value@ == "REPLACE_WITH_TURSO_TOKEN"@ ==> (r matches Err(m) && m@ == placeholder_message(
            name@,
        )),
        value@ != "REPLACE_WITH_TURSO_TOKEN"@ ==> r is Ok,
{
    if same_chars(&chars_of(value), &chars_of("REPLACE_WITH_TURSO_TOKEN")) {
        let mut m = chars_of(name);
        push_str(&mut m, " still uses template placeholder");
        return Err(string_of(&m));
    }
    Ok(())
}

/// What a verified shared counter database secret shows.
#[derive(Debug, Clone)]
pub struct SharedDbSummary {
    pub url: String,
    pub app_token: String,
    pub outbox_token: String,
    pub projector_token: String,
}

/// Message when the three database URLs differ.
pub open spec fn misaligned_message() -> Seq<char> {
    "shared counter DB URLs are not aligned across web-bff/outbox/projector"@
}

/// The value of an export, or the empty text where it is missing.
pub open spec fn export_value(m: Map<Seq<char>, Seq<char>>, key: Seq<char>) -> Seq<char> {
    if m.dom().contains(key) {
        m[key]
    } else {
        Seq::empty()
    }
}

/// What is wrong with a database URL, if anything.
pub open spec fn url_failure(name: Seq<char>, value: Seq<char>) -> Option<Seq<char>> {
    if has_prefix(value, "file:"@) {
        Some(local_file_message(name, value))
    } else if !has_prefix(value, "libsql://"@) {
        Some(scheme_message(name, value))
    } else {
        None
    }
}

/// What is wrong with a token, if anything.
pub open spec fn token_failure(name: Seq<char>, value: Seq<char>) -> Option<Seq<char>> {
    if value == "REPLACE_WITH_TURSO_TOKEN"@ {
        Some(placeholder_message(name))
    } else {
        None
    }
}

/// The first failure of the shared counter database checks, in the order
/// they are made: the six exports present and non-empty (URL and token of
/// the app, the outbox and the projector), the three URLs, the three tokens,
/// then the URLs being one and the same. `None` where all pass.
pub open spec fn shared_db_failure(m: Map<Seq<char>, Seq<char>>) -> Option<Seq<char>> {
    let app_url = export_value(m, "APP_TURSO_URL"@);
    let app_token = export_value(m, "APP_TURSO_AUTH_TOKEN"@);
    let outbox_url = export_value(m, "OUTBOX_DATABASE_URL"@);
    let outbox_token = export_value(m, "OUTBOX_TURSO_AUTH_TOKEN"@);
    let projector_url = export_value(m, "PROJECTOR_DATABASE_URL"@);
    let projector_token = export_value(m, "PROJECTOR_TURSO_AUTH_TOKEN"@);
    if app_url.len() == 0 {
        Some(missing_message("APP_TURSO_URL"@))
    } else if app_token.len() == 0 {
        Some(missing_message("APP_TURSO_AUTH_TOKEN"@))
    } else if outbox_url.len() == 0 {
        Some(missing_message("OUTBOX_DATABASE_URL"@))
    } else if outbox_token.len() == 0 {
        Some(missing_message("OUTBOX_TURSO_AUTH_TOKEN"@))
    } else if projector_url.len() == 0 {
        Some(missing_message("PROJECTOR_DATABASE_URL"@))
    } else if projector_token.len() == 0 {
        Some(missing_message("PROJECTOR_TURSO_AUTH_TOKEN"@))
    } else if url_failure("APP_TURSO_URL"@, app_url) is Some {
        url_failure("APP_TURSO_URL"@, app_url)
    } else if url_failure("OUTBOX_DATABASE_URL"@, outbox_url) is Some {
        url_failure("OUTBOX_DATABASE_URL"@, outbox_url)
    } else if url_failure("PROJECTOR_DATABASE_URL"@, projector_url) is Some {
        url_failure("PROJECTOR_DATABASE_URL"@, projector_url)
    } else if token_failure("APP_TURSO_AUTH_TOKEN"@, app_token) is Some {
        token_failure("APP_TURSO_AUTH_TOKEN"@, app_token)
    } else if token_failure("OUTBOX_TURSO_AUTH_TOKEN"@, outbox_token) is Some {
        token_failure("OUTBOX_TURSO_AUTH_TOKEN"@, outbox_token)
    } else if token_failure("PROJECTOR_TURSO_AUTH_TOKEN"@, projector_token) is Some {
        token_failure("PROJECTOR_TURSO_AUTH_TOKEN"@, projector_token)
    } else if app_url != outbox_url || app_url != projector_url {
        Some(misaligned_message())
    } else {
        None
    }
}

/// The shared counter database secret passes its checks only when all six
/// exports are present and non-empty, the three database URLs use
/// `libsql://`, no token is the template placeholder, and the web-bff,
/// outbox and projector URLs are one and the same text.
pub proof fn law_shared_db_accepts_only_aligned(m: Map<Seq<char>, Seq<char>>)
    requires
        shared_db_failure(m) is None,
    ensures
        m.dom().contains("APP_TURSO_URL"@) && m["APP_TURSO_URL"@].len() > 0,
        m.dom().contains("APP_TURSO_AUTH_TOKEN"@) && m["APP_TURSO_AUTH_TOKEN"@].len() > 0,
        m.dom().contains("OUTBOX_DATABASE_URL"@) && m["OUTBOX_DATABASE_URL"@].len() > 0,
        m.dom().contains("OUTBOX_TURSO_AUTH_TOKEN"@) && m["OUTBOX_TURSO_AUTH_TOKEN"@].len() > 0,
        m.dom().contains("PROJECTOR_DATABASE_URL"@) && m["PROJECTOR_DATABASE_URL"@].len() > 0,
        m.dom().contains("PROJECTOR_TURSO_AUTH_TOKEN"@) && m["PROJECTOR_TURSO_AUTH_TOKEN"@].len() > 0,
        has_prefix(m["APP_TURSO_URL"@], "libsql://"@),
        m["OUTBOX_DATABASE_URL"@] == m["APP_TURSO_URL"@],
        m["PROJECTOR_DATABASE_URL"@] == m["APP_TURSO_URL"@],
        m["APP_TURSO_AUTH_TOKEN"@] != "REPLACE_WITH_TURSO_TOKEN"@,
        m["OUTBOX_TURSO_AUTH_TOKEN"@] != "REPLACE_WITH_TURSO_TOKEN"@,
        m["PROJECTOR_TURSO_AUTH_TOKEN"@] != "REPLACE_WITH_TURSO_TOKEN"@,
{
}

/// Exports that pass every other check but whose three database URLs are
/// not all the same text are refused with the not-aligned message.
pub proof fn law_shared_db_rejects_misaligned(m: Map<Seq<char>, Seq<char>>)
    requires
        export_value(m, "APP_TURSO_AUTH_TOKEN"@).len() > 0,
        export_value(m, "OUTBOX_TURSO_AUTH_TOKEN"@).len() > 0,
        export_value(m, "PROJECTOR_TURSO_AUTH_TOKEN"@).len() > 0,
        export_value(m, "APP_TURSO_AUTH_TOKEN"@) != "REPLACE_WITH_TURSO_TOKEN"@,
        export_value(m, "OUTBOX_TURSO_AUTH_TOKEN"@) != "REPLACE_WITH_TURSO_TOKEN"@,
        export_value(m, "PROJECTOR_TURSO_AUTH_TOKEN"@) != "REPLACE_WITH_TURSO_TOKEN"@,
        has_prefix(export_value(m, "APP_TURSO_URL"@), "libsql://"@),
        has_prefix(export_value(m, "OUTBOX_DATABASE_URL"@), "libsql://"@),
        has_prefix(export_value(m, "PROJECTOR_DATABASE_URL"@), "libsql://"@),
        export_value(m, "OUTBOX_DATABASE_URL"@) != export_value(m, "APP_TURSO_URL"@)
            || export_value(m, "PROJECTOR_DATABASE_URL"@) != export_value(m, "APP_TURSO_URL"@),
    ensures
        shared_db_failure(m) == Some(
            "shared counter DB URLs are not aligned across web-bff/outbox/projector"@,
        ),
{
    reveal_strlit("libsql://");
    reveal_strlit("file:");
    let a = export_value(m, "APP_TURSO_URL"@);
    let o = export_value(m, "OUTBOX_DATABASE_URL"@);
    let p = export_value(m, "PROJECTOR_DATABASE_URL"@);
    assert("libsql://"@[0] == 'l');
    assert("file:"@[0] == 'f');
    assert(a.subrange(0, 9)[0] == a[0]);
    assert(o.subrange(0, 9)[0] == o[0]);
    assert(p.subrange(0, 9)[0] == p[0]);
    assert(!has_prefix(a, "file:"@)) by {
        if has_prefix(a, "file:"@) {
            assert(a.subrange(0, 5)[0] == a[0]);
        }
    }
    assert(!has_prefix(o, "file:"@)) by {
        if has_prefix(o, "file:"@) {
            assert(o.subrange(0, 5)[0] == o[0]);
        }
    }
    assert(!has_prefix(p, "file:"@)) by {
        if has_prefix(p, "file:"@) {
            assert(p.subrange(0, 5)[0] == p[0]);
        }
    }
}

/// When all six exports are present, a web-bff URL that still names a local
/// file is the failure reported, before any other URL or token check.
pub proof fn law_shared_db_rejects_local_app_url(m: Map<Seq<char>, Seq<char>>)
    requires
        export_value(m, "APP_TURSO_URL"@).len() > 0,
        export_value(m, "APP_TURSO_AUTH_TOKEN"@).len() > 0,
        export_value(m, "OUTBOX_DATABASE_URL"@).len() > 0,
        export_value(m, "OUTBOX_TURSO_AUTH_TOKEN"@).len() > 0,
        export_value(m, "PROJECTOR_DATABASE_URL"@).len() > 0,
        export_value(m, "PROJECTOR_TURSO_AUTH_TOKEN"@).len() > 0,
        has_prefix(export_value(m, "APP_TURSO_URL"@), "file:"@),
    ensures
        shared_db_failure(m) == Some(
            "APP_TURSO_URL"@ + " still points to local file path: "@ + export_value(m, "APP_TURSO_URL"@),
        ),
{
}

/// A missing or empty export is always refused: the check fails whenever
/// any of the six exports is empty.
pub proof fn law_shared_db_requires_all_exports(m: Map<Seq<char>, Seq<char>>)
    requires
        export_value(m, "APP_TURSO_URL"@).len() == 0 || export_value(m, "APP_TURSO_AUTH_TOKEN"@).len() == 0
            || export_value(m, "OUTBOX_DATABASE_URL"@).len() == 0 || export_value(
            m,
            "OUTBOX_TURSO_AUTH_TOKEN"@,
        ).len() == 0 || export_value(m, "PROJECTOR_DATABASE_URL"@).len() == 0 || export_value(
            m,
            "PROJECTOR_TURSO_AUTH_TOKEN"@,
        ).len() == 0,
    ensures
        shared_db_failure(m) is Some,
{
}

/// The three tokens can be shown masked (a missing one counts as empty).
pub open spec fn shared_db_tokens_maskable(m: Map<Seq<char>, Seq<char>>) -> bool {
    &&& maskable(export_value(m, "APP_TURSO_AUTH_TOKEN"@))
    &&& maskable(export_value(m, "OUTBOX_TURSO_AUTH_TOKEN"@))
    &&& maskable(export_value(m, "PROJECTOR_TURSO_AUTH_TOKEN"@))
}

/// Checks the exports of the shared counter database secret (see
/// `shared_db_failure`): the error is the first failed check; on success
/// the URL and the masked tokens are returned for printing. Tokens that pass
/// every check must be maskable, as masking slices them four bytes from
/// either end.
pub fn check_counter_shared_db(exports: &Vec<(String, String)>) -> (r: Result<SharedDbSummary, String>)
    requires
        sorted_keys(export_views(exports@)),
        shared_db_failure(entries_map(export_views(exports@))) is None ==> shared_db_tokens_maskable(
            entries_map(export_views(exports@)),
        ),
    ensures
        r is Ok <==> shared_db_failure(entries_map(export_views(exports@))) is None,
        r matches Err(e) ==> shared_db_failure(entries_map(export_views(exports@))) == Some(e@),
        r matches Ok(s) ==> {
            let m = entries_map(export_views(exports@));
            &&& s.url@ == export_value(m, "APP_TURSO_URL"@)
            &&& s.app_token@ == masked(export_value(m, "APP_TURSO_AUTH_TOKEN"@))
            &&& s.outbox_token@ == masked(export_value(m, "OUTBOX_TURSO_AUTH_TOKEN"@))
            &&& s.projector_token@ == masked(export_value(m, "PROJECTOR_TURSO_AUTH_TOKEN"@))
        },
{
    let ghost m = entries_map(export_views(exports@));
    proof {
        reveal_strlit("REPLACE_WITH_TURSO_TOKEN");
    }
    let app_url = require_export(exports, "APP_TURSO_URL")?;
    let app_token = require_export(exports, "APP_TURSO_AUTH_TOKEN")?;
    let outbox_url = require_export(exports, "OUTBOX_DATABASE_URL")?;
    let outbox_token = require_export(exports, "OUTBOX_TURSO_AUTH_TOKEN")?;
    let projector_url = require_export(exports, "PROJECTOR_DATABASE_URL")?;
    let projector_token = require_export(exports, "PROJECTOR_TURSO_AUTH_TOKEN")?;
    require_libsql_url("APP_TURSO_URL", app_url.as_str())?;
    require_libsql_url("OUTBOX_DATABASE_URL", outbox_url.as_str())?;
    require_libsql_url("PROJECTOR_DATABASE_URL", projector_url.as_str())?;
    require_real_token("APP_TURSO_AUTH_TOKEN", app_token.as_str())?;
    require_real_token("OUTBOX_TURSO_AUTH_TOKEN", outbox_token.as_str())?;
    require_real_token("PROJECTOR_TURSO_AUTH_TOKEN", projector_token.as_str())?;
    let a = chars_of(app_url.as_str());
    if !same_chars(&a, &chars_of(outbox_url.as_str())) || !same_chars(
        &a,
        &chars_of(projector_url.as_str()),
    ) {
        return Err("shared counter DB URLs are not aligned across web-bff/outbox/projector".to_string());
    }
    assert(shared_db_failure(m) is None);
    Ok(
        SharedDbSummary {
            url: app_url,
            app_token: mask_token(app_token.as_str()),
            outbox_token: mask_token(outbox_token.as_str()),
            projector_token: mask_token(projector_token.as_str()),
        },
    )
}

/// Whether the three tokens of the shared counter database secret can be
/// shown masked (see `check_counter_shared_db`).
pub fn shared_db_tokens_ok(exports: &Vec<(String, String)>) -> (r: bool)
    requires
        sorted_keys(export_views(exports@)),
    ensures
        r == shared_db_tokens_maskable(entries_map(export_views(exports@))),
{
    let a = export_get(exports, "APP_TURSO_AUTH_TOKEN").unwrap_or(String::new());
    let b = export_get(exports, "OUTBOX_TURSO_AUTH_TOKEN").unwrap_or(String::new());
    let c = export_get(exports, "PROJECTOR_TURSO_AUTH_TOKEN").unwrap_or(String::new());
    maskable_token(&a) && maskable_token(&b) && maskable_token(&c)
}

/// Whether the token can be masked without slicing inside a character.
pub fn maskable_token(token: &String) -> (r: bool)
    ensures
        r == maskable(token@),
{
    let v = chars_of(token.as_str());
    if !byte_len_exceeds(&v, 8) {
        return true;
    }
    crate::text::char_index_at_byte(&v, 4).is_some() && suffix_index(&v, 4).is_some()
}

// ---------------------------------------------------------------------------
// Age keys
// ---------------------------------------------------------------------------

/// Prefix of the comment line that carries an age public key.
pub open spec fn public_key_prefix() -> Seq<char> {
    "# public key: "@
}

/// The public key of an age key file: the rest of the first line that starts
/// with the public key comment.
pub open spec fn public_key_of(content: Seq<char>) -> Option<Seq<char>> {
    let ls = lines(content);
    if exists|i: int| 0 <= i < ls.len() && has_prefix(ls[i], public_key_prefix()) {
        let i = choose|i: int|
            0 <= i < ls.len() && has_prefix(ls[i], public_key_prefix()) && forall|j: int|
                0 <= j < i ==> !has_prefix(ls[j], public_key_prefix());
        Some(ls[i].skip(public_key_prefix().len() as int))
    } else {
        None
    }
}

/// The public key in the text of an age key file, if it has one.
pub fn read_age_public_key(content: &str) -> (r: Option<String>)
    ensures
        r matches Some(k) ==> public_key_of(content@) == Some(k@),
        r is None ==> public_key_of(content@) is None,
{
    let c = chars_of(content);
    let ls = split_lines(&c);
    let prefix = chars_of("# public key: ");
    let mut i: usize = 0;
    while i < ls.len()
        invariant
            i <= ls@.len(),
            ls@.len() == lines(content@).len(),
            forall|k: int| 0 <= k < ls@.len() ==> #[trigger] ls@[k]@ == lines(content@)[k],
            prefix@ == public_key_prefix(),
            forall|j: int| 0 <= j < i ==> !has_prefix(#[trigger] lines(content@)[j], public_key_prefix()),
        decreases ls@.len() - i,
    {
        if starts_with(&ls[i], &prefix) {
            proof {
                let ls_s = lines(content@);
                let w = choose|w: int|
                    0 <= w < ls_s.len() && has_prefix(ls_s[w], public_key_prefix()) && forall|j: int|
                        0 <= j < w ==> !has_prefix(ls_s[j], public_key_prefix());
                assert(0 <= i < ls_s.len() && has_prefix(ls_s[i as int], public_key_prefix()));
                if w < i {
                    assert(!has_prefix(ls_s[w], public_key_prefix()));
                } else if w > i {
                    assert(!has_prefix(ls_s[i as int], public_key_prefix()));
                }
            }
            let key = slice(&ls[i], prefix.len(), ls[i].len());
            return Some(string_of(&key));
        }
        i = i + 1;
    }
    None
}

// ---------------------------------------------------------------------------
// Running with secrets
// ---------------------------------------------------------------------------

/// The message of each exports error.
pub open spec fn exports_error_message(e: ExportsError) -> Seq<char> {
    match e {
        ExportsError::InvalidYaml => "failed to parse decrypted YAML"@,
        ExportsError::NoMapping => "decrypted YAML does not contain stringData or flat key-value mapping"@,
    }
}

impl ExportsError {
    /// The error's message.
    pub fn message(&self) -> (r: &'static str)
        ensures
            r@ == exports_error_message(*self),
    {
        match self {
            ExportsError::InvalidYaml => "failed to parse decrypted YAML",
            ExportsError::NoMapping => "decrypted YAML does not contain stringData or flat key-value mapping",
        }
    }
}

/// Adds the exports of `from` to `into`, those of `from` winning.
pub fn merge_exports(into: &mut Vec<(String, String)>, from: &Vec<(String, String)>)
    requires
        sorted_keys(export_views(old(into)@)),
    ensures
        sorted_keys(export_views(final(into)@)),
        entries_map(export_views(final(into)@)) == entries_map(export_views(old(into)@)).union_prefer_right(
            entries_map(export_views(from@)),
        ),
{
    let ghost base = entries_map(export_views(into@));
    let ghost fv = export_views(from@);
    let mut i: usize = 0;
    assert(entries_map(fv.take(0)) =~= Map::<Seq<char>, Seq<char>>::empty());
    assert(base.union_prefer_right(Map::<Seq<char>, Seq<char>>::empty()) =~= base);
    while i < from.len()
        invariant
            i <= from@.len(),
            fv == export_views(from@),
            sorted_keys(export_views(into@)),
            entries_map(export_views(into@)) == base.union_prefer_right(entries_map(fv.take(i as int))),
        decreases from@.len() - i,
    {
        let ghost m0 = entries_map(fv.take(i as int));
        insert_export(into, from[i].0.clone(), from[i].1.clone());
        proof {
            assert(fv.take(i + 1).drop_last() =~= fv.take(i as int));
            assert(fv.take(i + 1).last() == (from@[i as int].0@, from@[i as int].1@));
            assert(base.union_prefer_right(m0).insert(from@[i as int].0@, from@[i as int].1@) =~= base.union_prefer_right(
                m0.insert(from@[i as int].0@, from@[i as int].1@),
            ));
        }
        i = i + 1;
    }
    assert(fv.take(from@.len() as int) =~= fv);
}

/// The command run with secrets: the one given, else `cargo run -p
/// <deployable>`.
pub fn secret_command(cmd: &Vec<String>, deployable: &str) -> (r: Vec<String>)
    ensures
        cmd@.len() > 0 ==> crate::gate::string_views(r@) == crate::gate::string_views(cmd@),
        cmd@.len() == 0 ==> crate::gate::string_views(r@) == seq!["cargo"@, "run"@, "-p"@, deployable@],
{
    if cmd.len() > 0 {
        crate::contracts::copy_strings(cmd)
    } else {
        let mut r: Vec<String> = Vec::new();
        r.push("cargo".to_string());
        r.push("run".to_string());
        r.push("-p".to_string());
        r.push(deployable.to_string());
        assert(crate::gate::string_views(r@) =~= seq!["cargo"@, "run"@, "-p"@, deployable@]);
        r
    }
}

/// `s` without trailing occurrences of the non-empty `p`
/// (`str::trim_end_matches` on a string).
pub open spec fn trim_end_str(s: Seq<char>, p: Seq<char>) -> Seq<char>
    decreases s.len(),
{
    if p.len() > 0 && crate::text::has_suffix(s, p) {
        trim_end_str(s.take(s.len() - p.len()), p)
    } else {
        s
    }
}

/// Whether a file name is that of an encrypted secret: it ends with
/// `.enc.yaml`.
pub fn is_encrypted_secret(file_name: &str) -> (r: bool)
    ensures
        r == crate::text::has_suffix(file_name@, ".enc.yaml"@),
{
    crate::text::ends_with(&chars_of(file_name), &chars_of(".enc.yaml"))
}

/// The name of an encrypted secret file: without its `.enc.yaml` endings.
pub fn secret_name(file_name: &str) -> (r: String)
    ensures
        r@ == trim_end_str(file_name@, ".enc.yaml"@),
{
    proof {
        reveal_strlit(".enc.yaml");
    }
    let suffix = chars_of(".enc.yaml");
    let mut v = chars_of(file_name);
    while crate::text::ends_with(&v, &suffix)
        invariant
            suffix@ == ".enc.yaml"@,
            suffix@.len() == 9,
            trim_end_str(v@, ".enc.yaml"@) == trim_end_str(file_name@, ".enc.yaml"@),
        decreases v@.len(),
    {
        let n = v.len();
        v = slice(&v, 0, n - 9);
    }
    string_of(&v)
}

} // verus!
