//! Character-level string model shared by the rest of the library.
//!
//! Strings are handled as sequences of Unicode scalar values (`Seq<char>`, the
//! view vstd gives `str` and `String`). Where std works on UTF-8 byte offsets,
//! the byte length of a character is modelled by `utf8_width`.
use vstd::prelude::*;

verus! {

// ---------------------------------------------------------------------------
// Specification
// ---------------------------------------------------------------------------

/// Number of bytes that the UTF-8 encoding of `c` takes.
pub open spec fn utf8_width(c: char) -> nat {
    if (c as u32) < 0x80 {
        1
    } else if (c as u32) < 0x800 {
        2
    } else if (c as u32) < 0x10000 {
        3
    } else {
        4
    }
}

/// Byte length of the UTF-8 encoding of `s` (what `str::len` returns).
pub open spec fn byte_len(s: Seq<char>) -> nat
    decreases s.len(),
{
    if s.len() == 0 {
        0
    } else {
        byte_len(s.drop_last()) + utf8_width(s.last())
    }
}

/// Unicode `White_Space` property (what `char::is_whitespace` tests).
pub open spec fn is_space(c: char) -> bool {
    let u = c as u32;
    (0x9 <= u && u <= 0xD) || u == 0x20 || u == 0x85 || u == 0xA0 || u == 0x1680 || (0x2000 <= u
        && u <= 0x200A) || u == 0x2028 || u == 0x2029 || u == 0x202F || u == 0x205F || u == 0x3000
}

/// `p` is a prefix of `s`.
pub open spec fn has_prefix(s: Seq<char>, p: Seq<char>) -> bool {
    p.len() <= s.len() && s.subrange(0, p.len() as int) == p
}

/// `p` is a suffix of `s`.
pub open spec fn has_suffix(s: Seq<char>, p: Seq<char>) -> bool {
    p.len() <= s.len() && s.subrange(s.len() - p.len(), s.len() as int) == p
}

/// `p` occurs in `s` starting at index `i`.
pub open spec fn occurs_at(s: Seq<char>, p: Seq<char>, i: int) -> bool {
    0 <= i && i + p.len() <= s.len() && s.subrange(i, i + p.len()) == p
}

/// `p` occurs somewhere in `s` (what `str::contains` tests for a string pattern).
pub open spec fn contains(s: Seq<char>, p: Seq<char>) -> bool {
    exists|i: int| occurs_at(s, p, i)
}

/// Index of the first occurrence of `c` in `t`, or -1.
pub open spec fn index_of(t: Seq<char>, c: char) -> int
    decreases t.len(),
{
    if t.len() == 0 {
        -1
    } else if t[0] == c {
        0
    } else {
        let r = index_of(t.drop_first(), c);
        if r < 0 {
            -1
        } else {
            r + 1
        }
    }
}

/// A line without its line ending: a `\r` is dropped only where a `\n` followed it.
pub open spec fn strip_cr(line: Seq<char>) -> Seq<char> {
    if line.len() > 0 && line.last() == '\r' {
        line.drop_last()
    } else {
        line
    }
}

/// The lines of `s`, as `str::lines` yields them: split at `\n`, a `\r` before
/// the `\n` dropped, and no empty line after a final `\n`.
pub open spec fn lines(s: Seq<char>) -> Seq<Seq<char>>
    decreases s.len(),
{
    if s.len() == 0 {
        Seq::empty()
    } else {
        let i = index_of(s, '\n');
        proof {
            lemma_index_of_range(s, '\n');
        }
        if i < 0 {
            seq![s]
        } else {
            seq![strip_cr(s.subrange(0, i))] + lines(s.subrange(i + 1, s.len() as int))
        }
    }
}

/// The first `k` characters of `s` take exactly `b` bytes: byte offset `b`
/// is the character boundary before `s[k]`.
pub open spec fn byte_boundary(s: Seq<char>, b: int, k: int) -> bool {
    0 <= k <= s.len() && byte_len(s.take(k)) == b
}

/// The pieces of `s` between occurrences of `c` (`str::split` on a char):
/// one more piece than there are separators, empty pieces kept.
pub open spec fn split(s: Seq<char>, c: char) -> Seq<Seq<char>>
    decreases s.len(),
{
    let i = index_of(s, c);
    proof {
        lemma_index_of_range(s, c);
    }
    if i < 0 {
        seq![s]
    } else {
        seq![s.subrange(0, i)] + split(s.subrange(i + 1, s.len() as int), c)
    }
}

/// `s` split at the first `c` (`str::split_once` on a char).
pub open spec fn split_once(s: Seq<char>, c: char) -> Option<(Seq<char>, Seq<char>)> {
    let i = index_of(s, c);
    if i < 0 {
        None
    } else {
        Some((s.subrange(0, i), s.subrange(i + 1, s.len() as int)))
    }
}

/// Index of the first occurrence of the non-empty pattern `p` in `s`, or -1.
pub open spec fn first_occurrence(s: Seq<char>, p: Seq<char>) -> int
    decreases s.len(),
{
    if occurs_at(s, p, 0) {
        0
    } else if s.len() <= p.len() {
        -1
    } else {
        let r = first_occurrence(s.drop_first(), p);
        if r < 0 {
            -1
        } else {
            r + 1
        }
    }
}

/// The last piece of `str::split` on the non-empty string pattern `p`:
/// matches are taken left to right without overlap.
pub open spec fn split_last(s: Seq<char>, p: Seq<char>) -> Seq<char>
    decreases s.len(),
{
    let i = first_occurrence(s, p);
    if i < 0 || p.len() == 0 {
        s
    } else {
        proof {
            lemma_first_occurrence_range(s, p);
        }
        split_last(s.subrange(i + p.len(), s.len() as int), p)
    }
}

/// The pieces of `s` between non-overlapping occurrences of the non-empty
/// pattern `p`, taken left to right (`str::split` on a string pattern).
pub open spec fn split_str(s: Seq<char>, p: Seq<char>) -> Seq<Seq<char>>
    decreases s.len(),
{
    let i = first_occurrence(s, p);
    if i < 0 || p.len() == 0 {
        seq![s]
    } else {
        proof {
            lemma_first_occurrence_range(s, p);
        }
        seq![s.subrange(0, i)] + split_str(s.subrange(i + p.len(), s.len() as int), p)
    }
}

/// `s` with every non-overlapping occurrence of the non-empty pattern `p`,
/// left to right, replaced by `r` (`str::replace`).
pub open spec fn replace_all(s: Seq<char>, p: Seq<char>, r: Seq<char>) -> Seq<char>
    decreases s.len(),
{
    let i = first_occurrence(s, p);
    if i < 0 || p.len() == 0 {
        s
    } else {
        proof {
            lemma_first_occurrence_range(s, p);
        }
        s.subrange(0, i) + r + replace_all(s.subrange(i + p.len(), s.len() as int), p, r)
    }
}

/// Length of the run of non-whitespace characters that starts `s`.
pub open spec fn word_len(s: Seq<char>) -> nat
    decreases s.len(),
{
    if s.len() > 0 && !is_space(s[0]) {
        1 + word_len(s.drop_first())
    } else {
        0
    }
}

/// The whitespace-separated words of `s` (`str::split_whitespace`).
pub open spec fn words(s: Seq<char>) -> Seq<Seq<char>>
    decreases s.len(),
{
    if s.len() == 0 {
        Seq::empty()
    } else if is_space(s[0]) {
        words(s.drop_first())
    } else {
        proof {
            lemma_word_len_bound(s);
        }
        seq![s.take(word_len(s) as int)] + words(s.skip(word_len(s) as int))
    }
}

pub proof fn lemma_word_len_bound(s: Seq<char>)
    ensures
        word_len(s) <= s.len(),
        s.len() > 0 && !is_space(s[0]) ==> word_len(s) >= 1,
    decreases s.len(),
{
    if s.len() > 0 && !is_space(s[0]) {
        lemma_word_len_bound(s.drop_first());
    }
}

/// The word starting at `s[0]` runs to `k`.
pub proof fn lemma_word_len_exact(s: Seq<char>, k: int)
    requires
        0 <= k <= s.len(),
        forall|j: int| 0 <= j < k ==> !is_space(#[trigger] s[j]),
        k < s.len() ==> is_space(s[k]),
    ensures
        word_len(s) == k,
    decreases s.len(),
{
    if k > 0 {
        assert forall|j: int| 0 <= j < k - 1 implies !is_space(#[trigger] s.drop_first()[j]) by {
            assert(s.drop_first()[j] == s[j + 1]);
        }
        lemma_word_len_exact(s.drop_first(), k - 1);
    }
}

/// Number of leading whitespace characters of `s`.
pub open spec fn leading_space(s: Seq<char>) -> nat
    decreases s.len(),
{
    if s.len() > 0 && is_space(s[0]) {
        1 + leading_space(s.drop_first())
    } else {
        0
    }
}

/// Number of trailing whitespace characters of `s`.
pub open spec fn trailing_space(s: Seq<char>) -> nat
    decreases s.len(),
{
    if s.len() > 0 && is_space(s.last()) {
        1 + trailing_space(s.drop_last())
    } else {
        0
    }
}

/// `s` without leading whitespace (`str::trim_start`).
pub open spec fn trim_start(s: Seq<char>) -> Seq<char> {
    s.subrange(leading_space(s) as int, s.len() as int)
}

/// `s` without trailing whitespace (`str::trim_end`).
pub open spec fn trim_end(s: Seq<char>) -> Seq<char> {
    s.subrange(0, s.len() - trailing_space(s))
}

/// `s` without leading and trailing whitespace (`str::trim`).
pub open spec fn trim(s: Seq<char>) -> Seq<char> {
    trim_end(trim_start(s))
}

// ---------------------------------------------------------------------------
// Lemmas
// ---------------------------------------------------------------------------

pub proof fn lemma_index_of_range(t: Seq<char>, c: char)
    ensures
        -1 <= index_of(t, c) < t.len(),
        index_of(t, c) >= 0 ==> t[index_of(t, c)] == c,
    decreases t.len(),
{
    if t.len() > 0 && t[0] != c {
        lemma_index_of_range(t.drop_first(), c);
    }
}

pub proof fn lemma_first_occurrence_range(s: Seq<char>, p: Seq<char>)
    ensures
        -1 <= first_occurrence(s, p),
        first_occurrence(s, p) >= 0 ==> occurs_at(s, p, first_occurrence(s, p)),
        first_occurrence(s, p) >= 0 ==> forall|j: int|
            0 <= j < first_occurrence(s, p) ==> !occurs_at(s, p, j),
        first_occurrence(s, p) < 0 ==> forall|j: int| !occurs_at(s, p, j),
    decreases s.len(),
{
    if !occurs_at(s, p, 0) && s.len() > p.len() {
        let t = s.drop_first();
        lemma_first_occurrence_range(t, p);
        assert forall|j: int| 1 <= j implies occurs_at(s, p, j) == occurs_at(t, p, j - 1) by {
            if 0 <= j - 1 && j - 1 + p.len() <= t.len() {
                assert(s.subrange(j, j + p.len()) =~= t.subrange(j - 1, j - 1 + p.len()));
            }
        }
    }
}

pub proof fn lemma_index_of_contains(t: Seq<char>, c: char)
    ensures
        index_of(t, c) >= 0 <==> t.contains(c),
{
    lemma_index_of_range(t, c);
    if t.contains(c) {
        let k = choose|k: int| 0 <= k < t.len() && t[k] == c;
        if index_of(t, c) < 0 {
            let first = choose|m: int| 0 <= m < t.len() && t[m] == c && forall|j: int| 0 <= j < m ==> t[j] != c;
            assert(false) by {
                lemma_first_occurrence(t, c, k);
            }
        }
    }
}

proof fn lemma_first_occurrence(t: Seq<char>, c: char, k: int)
    requires
        0 <= k < t.len(),
        t[k] == c,
    ensures
        index_of(t, c) >= 0,
    decreases t.len(),
{
    if t[0] != c {
        assert(t.drop_first()[k - 1] == c);
        lemma_first_occurrence(t.drop_first(), c, k - 1);
    }
}

pub proof fn lemma_index_of_found(t: Seq<char>, c: char, k: int)
    requires
        0 <= k < t.len(),
        t[k] == c,
        forall|j: int| 0 <= j < k ==> t[j] != c,
    ensures
        index_of(t, c) == k,
    decreases t.len(),
{
    if k > 0 {
        lemma_index_of_found(t.drop_first(), c, k - 1);
    }
}

pub proof fn lemma_index_of_absent(t: Seq<char>, c: char)
    requires
        forall|j: int| 0 <= j < t.len() ==> t[j] != c,
    ensures
        index_of(t, c) == -1,
    decreases t.len(),
{
    if t.len() > 0 {
        lemma_index_of_absent(t.drop_first(), c);
    }
}

pub proof fn lemma_leading_space_bound(s: Seq<char>)
    ensures
        leading_space(s) <= s.len(),
        forall|j: int| 0 <= j < leading_space(s) ==> is_space(#[trigger] s[j]),
        leading_space(s) < s.len() ==> !is_space(s[leading_space(s) as int]),
    decreases s.len(),
{
    if s.len() > 0 && is_space(s[0]) {
        lemma_leading_space_bound(s.drop_first());
        assert forall|j: int| 0 <= j < leading_space(s) implies is_space(#[trigger] s[j]) by {
            if j > 0 {
                assert(s[j] == s.drop_first()[j - 1]);
            }
        }
    }
}

pub proof fn lemma_leading_space_exact(s: Seq<char>, k: int)
    requires
        0 <= k <= s.len(),
        forall|j: int| 0 <= j < k ==> is_space(#[trigger] s[j]),
        k < s.len() ==> !is_space(s[k]),
    ensures
        leading_space(s) == k,
    decreases s.len(),
{
    if k > 0 {
        assert forall|j: int| 0 <= j < k - 1 implies is_space(#[trigger] s.drop_first()[j]) by {
            assert(s.drop_first()[j] == s[j + 1]);
        }
        lemma_leading_space_exact(s.drop_first(), k - 1);
    }
}

pub proof fn lemma_trailing_space_exact(s: Seq<char>, k: int)
    requires
        0 <= k <= s.len(),
        forall|j: int| s.len() - k <= j < s.len() ==> is_space(#[trigger] s[j]),
        k < s.len() ==> !is_space(s[s.len() - k - 1]),
    ensures
        trailing_space(s) == k,
    decreases s.len(),
{
    if k > 0 {
        let t = s.drop_last();
        assert forall|j: int| t.len() - (k - 1) <= j < t.len() implies is_space(#[trigger] t[j]) by {
            assert(t[j] == s[j]);
        }
        if k - 1 < t.len() {
            assert(t[t.len() - (k - 1) - 1] == s[s.len() - k - 1]);
        }
        lemma_trailing_space_exact(t, k - 1);
    }
}

pub proof fn lemma_byte_len_take_mono(s: Seq<char>, i: int, j: int)
    requires
        0 <= i <= j <= s.len(),
    ensures
        byte_len(s.take(i)) + (j - i) <= byte_len(s.take(j)),
    decreases j - i,
{
    if i < j {
        lemma_byte_len_take_mono(s, i, j - 1);
        assert(s.take(j).drop_last() == s.take(j - 1));
    }
}

pub proof fn lemma_byte_len_cons(c: char, t: Seq<char>)
    ensures
        byte_len(seq![c] + t) == utf8_width(c) + byte_len(t),
    decreases t.len(),
{
    if t.len() > 0 {
        lemma_byte_len_cons(c, t.drop_last());
        assert((seq![c] + t).drop_last() =~= seq![c] + t.drop_last());
        assert((seq![c] + t).last() == t.last());
    } else {
        assert(seq![c] + t =~= seq![c]);
        assert(seq![c].drop_last() =~= Seq::<char>::empty());
        assert(byte_len(Seq::<char>::empty()) == 0);
    }
}

/// Byte offsets are boundaries of at most one character index.
pub proof fn lemma_byte_boundary_unique(s: Seq<char>, b: int, k1: int, k2: int)
    requires
        byte_boundary(s, b, k1),
        byte_boundary(s, b, k2),
    ensures
        k1 == k2,
{
    if k1 < k2 {
        lemma_byte_len_take_mono(s, k1, k2);
    } else if k2 < k1 {
        lemma_byte_len_take_mono(s, k2, k1);
    }
}

// ---------------------------------------------------------------------------
// Executable helpers
// ---------------------------------------------------------------------------

/// Appends one character to a `String` (std `String::push`).
#[verifier::external_body]
pub(crate) fn push_char(s: &mut String, c: char)
    ensures
        final(s)@ == old(s)@.push(c),
{
    s.push(c);
}

/// The characters of `s`, in order.
pub fn chars_of(s: &str) -> (v: Vec<char>)
    ensures
        v@ == s@,
{
    let mut v: Vec<char> = Vec::new();
    for c in it: s.chars()
        invariant
            v@ == it.seq().take(it.index() as int),
    {
        v.push(c);
    }
    v
}

/// The string made of the characters `v`.
pub fn string_of(v: &[char]) -> (s: String)
    ensures
        s@ == v@,
{
    let mut s = String::new();
    let mut i: usize = 0;
    while i < v.len()
        invariant
            i <= v.len(),
            s@ == v@.take(i as int),
        decreases v.len() - i,
    {
        push_char(&mut s, v[i]);
        assert(v@.take(i + 1) == v@.take(i as int).push(v@[i as int]));
        i = i + 1;
    }
    assert(v@.take(v.len() as int) == v@);
    s
}

/// Appends the characters of `s` to `out`.
pub fn push_str(out: &mut Vec<char>, s: &str)
    ensures
        final(out)@ == old(out)@ + s@,
{
    let cs = chars_of(s);
    push_chars(out, &cs);
}

/// Appends `v` to `out`.
pub fn push_chars(out: &mut Vec<char>, v: &[char])
    ensures
        final(out)@ == old(out)@ + v@,
{
    let ghost start = out@;
    let mut i: usize = 0;
    while i < v.len()
        invariant
            i <= v.len(),
            out@ == start + v@.take(i as int),
        decreases v.len() - i,
    {
        out.push(v[i]);
        assert(v@.take(i + 1) == v@.take(i as int).push(v@[i as int]));
        i = i + 1;
    }
    assert(v@.take(v.len() as int) == v@);
}

/// `v[from..to]` as a new vector.
pub fn slice(v: &[char], from: usize, to: usize) -> (r: Vec<char>)
    requires
        from <= to <= v.len(),
    ensures
        r@ == v@.subrange(from as int, to as int),
{
    let mut r: Vec<char> = Vec::new();
    let mut i: usize = from;
    while i < to
        invariant
            from <= i <= to <= v.len(),
            r@ == v@.subrange(from as int, i as int),
        decreases to - i,
    {
        r.push(v[i]);
        assert(v@.subrange(from as int, i + 1) == v@.subrange(from as int, i as int).push(
            v@[i as int],
        ));
        i = i + 1;
    }
    r
}

/// Number of bytes of the UTF-8 encoding of `c` (`char::len_utf8`).
pub fn width_of(c: char) -> (w: usize)
    ensures
        w as nat == utf8_width(c),
{
    let u = c as u32;
    if u < 0x80 {
        1
    } else if u < 0x800 {
        2
    } else if u < 0x10000 {
        3
    } else {
        4
    }
}

/// The character index at byte offset `b` of `s`, if `b` is a character
/// boundary there (`str::is_char_boundary`).
pub fn char_index_at_byte(s: &[char], b: usize) -> (r: Option<usize>)
    ensures
        r matches Some(k) ==> byte_boundary(s@, b as int, k as int),
        r is None ==> forall|k: int| !byte_boundary(s@, b as int, k),
{
    let mut acc: usize = 0;
    let mut k: usize = 0;
    assert(s@.take(0) =~= Seq::<char>::empty());
    while k < s.len() && acc < b
        invariant
            k <= s.len(),
            acc <= b,
            acc as nat == byte_len(s@.take(k as int)),
            forall|j: int| 0 <= j < k ==> byte_len(s@.take(j)) < b,
        decreases s.len() - k,
    {
        let w = width_of(s[k]);
        proof {
            assert(s@.take(k + 1).drop_last() == s@.take(k as int));
        }
        if w > b - acc {
            proof {
                assert forall|j: int| !byte_boundary(s@, b as int, j) by {
                    if 0 <= j <= s.len() && j > k {
                        lemma_byte_len_take_mono(s@, k + 1, j);
                    }
                }
            }
            return None;
        }
        acc = acc + w;
        k = k + 1;
    }
    if acc == b {
        Some(k)
    } else {
        proof {
            assert forall|j: int| !byte_boundary(s@, b as int, j) by {
                if 0 <= j <= s.len() && j > k {
                    lemma_byte_len_take_mono(s@, k as int, j);
                }
            }
        }
        None
    }
}

/// Whether `c` has the Unicode `White_Space` property.
pub fn is_space_char(c: char) -> (b: bool)
    ensures
        b == is_space(c),
{
    let u = c as u32;
    (0x9 <= u && u <= 0xD) || u == 0x20 || u == 0x85 || u == 0xA0 || u == 0x1680 || (0x2000 <= u
        && u <= 0x200A) || u == 0x2028 || u == 0x2029 || u == 0x202F || u == 0x205F || u == 0x3000
}

/// Whether `a` and `b` hold the same characters.
pub fn same_chars(a: &[char], b: &[char]) -> (r: bool)
    ensures
        r == (a@ == b@),
{
    if a.len() != b.len() {
        return false;
    }
    let mut i: usize = 0;
    while i < a.len()
        invariant
            a.len() == b.len(),
            i <= a.len(),
            forall|j: int| 0 <= j < i ==> a@[j] == b@[j],
        decreases a.len() - i,
    {
        if a[i] != b[i] {
            return false;
        }
        i = i + 1;
    }
    assert(a@ =~= b@);
    true
}

/// Whether `p` occurs in `s` at index `at`.
pub fn matches_at(s: &[char], p: &[char], at: usize) -> (r: bool)
    ensures
        r == occurs_at(s@, p@, at as int),
{
    if at > s.len() || p.len() > s.len() - at {
        return false;
    }
    let mut i: usize = 0;
    while i < p.len()
        invariant
            at + p.len() <= s.len(),
            i <= p.len(),
            forall|j: int| 0 <= j < i ==> s@[at + j] == p@[j],
        decreases p.len() - i,
    {
        if s[at + i] != p[i] {
            assert(s@.subrange(at as int, at + p.len())[i as int] != p@[i as int]);
            return false;
        }
        i = i + 1;
    }
    assert(s@.subrange(at as int, at + p.len()) =~= p@);
    true
}

/// Whether `s` starts with `p` (`str::starts_with`).
pub fn starts_with(s: &[char], p: &[char]) -> (r: bool)
    ensures
        r == has_prefix(s@, p@),
{
    matches_at(s, p, 0)
}

/// Whether `s` ends with `p` (`str::ends_with`).
pub fn ends_with(s: &[char], p: &[char]) -> (r: bool)
    ensures
        r == has_suffix(s@, p@),
{
    if p.len() > s.len() {
        false
    } else {
        matches_at(s, p, s.len() - p.len())
    }
}

/// Index of the first occurrence of `p` in `s`, if any (`str::find`).
pub fn find(s: &[char], p: &[char]) -> (r: Option<usize>)
    ensures
        r matches Some(i) ==> occurs_at(s@, p@, i as int) && forall|j: int|
            0 <= j < i ==> !occurs_at(s@, p@, j),
        r is None ==> !contains(s@, p@),
{
    if p.len() > s.len() {
        assert forall|j: int| !occurs_at(s@, p@, j) by {}
        return None;
    }
    let last = s.len() - p.len();
    let mut i: usize = 0;
    loop
        invariant
            p.len() <= s.len(),
            last == s.len() - p.len(),
            i <= last,
            forall|j: int| 0 <= j < i ==> !occurs_at(s@, p@, j),
        decreases last - i,
    {
        if matches_at(s, p, i) {
            return Some(i);
        }
        if i == last {
            assert forall|j: int| !occurs_at(s@, p@, j) by {}
            return None;
        }
        i = i + 1;
    }
}

/// Whether `p` occurs in `s` (`str::contains`).
pub fn contains_chars(s: &[char], p: &[char]) -> (r: bool)
    ensures
        r == contains(s@, p@),
{
    find(s, p).is_some()
}

/// The last piece of `str::split` on the non-empty pattern `p`.
pub fn split_last_piece(s: &[char], p: &[char]) -> (r: Vec<char>)
    requires
        p@.len() > 0,
    ensures
        r@ == split_last(s@, p@),
{
    let mut rest = slice(s, 0, s.len());
    assert(rest@ =~= s@);
    loop
        invariant
            p@.len() > 0,
            split_last(rest@, p@) == split_last(s@, p@),
        decreases rest@.len(),
    {
        match find(&rest, p) {
            None => {
                proof {
                    lemma_first_occurrence_range(rest@, p@);
                    if first_occurrence(rest@, p@) >= 0 {
                        assert(contains(rest@, p@));
                    }
                }
                return rest;
            },
            Some(i) => {
                proof {
                    lemma_first_occurrence_range(rest@, p@);
                    let f = first_occurrence(rest@, p@);
                    if f < 0 {
                        assert(occurs_at(rest@, p@, i as int));
                    } else if f < i {
                    } else if f > i {
                    }
                    assert(f == i);
                    assert(i + p@.len() <= rest@.len());
                }
                let n = rest.len();
                rest = slice(&rest, i + p.len(), n);
            },
        }
    }
}

/// `s` without leading and trailing whitespace (`str::trim`).
pub fn trim_chars(s: &[char]) -> (r: Vec<char>)
    ensures
        r@ == trim(s@),
{
    let mut a: usize = 0;
    while a < s.len() && is_space_char(s[a])
        invariant
            a <= s.len(),
            forall|j: int| 0 <= j < a ==> is_space(#[trigger] s@[j]),
        decreases s.len() - a,
    {
        a = a + 1;
    }
    proof {
        lemma_leading_space_exact(s@, a as int);
    }
    let mut b: usize = s.len();
    while b > a && is_space_char(s[b - 1])
        invariant
            a <= b <= s.len(),
            forall|j: int| b <= j < s.len() ==> is_space(#[trigger] s@[j]),
        decreases b,
    {
        b = b - 1;
    }
    proof {
        let t = s@.subrange(a as int, s.len() as int);
        assert(t == trim_start(s@));
        assert forall|j: int| t.len() - (s.len() - b) <= j < t.len() implies is_space(
            #[trigger] t[j],
        ) by {
            assert(t[j] == s@[a + j]);
        }
        if s.len() - b < t.len() {
            assert(t[t.len() - (s.len() - b) - 1] == s@[b - 1]);
        }
        lemma_trailing_space_exact(t, s.len() - b);
        assert(t.subrange(0, t.len() - (s.len() - b)) =~= s@.subrange(a as int, b as int));
    }
    slice(s, a, b)
}

/// `line` with a final `\r` dropped.
fn strip_cr_chars(line: Vec<char>) -> (r: Vec<char>)
    ensures
        r@ == strip_cr(line@),
{
    let mut line = line;
    if line.len() > 0 && line[line.len() - 1] == '\r' {
        line.pop();
    }
    line
}

/// The pieces of `s` between occurrences of `c` (`str::split`).
pub fn split_on(s: &[char], c: char) -> (r: Vec<Vec<char>>)
    ensures
        r@.len() == split(s@, c).len(),
        forall|k: int| 0 <= k < r@.len() ==> #[trigger] r@[k]@ == split(s@, c)[k],
{
    let mut out: Vec<Vec<char>> = Vec::new();
    assert(s@.subrange(0, s@.len() as int) =~= s@);
    assert(out@.map_values(|l: Vec<char>| l@) =~= Seq::<Seq<char>>::empty());
    let mut start: usize = 0;
    let mut i: usize = 0;
    while i < s.len()
        invariant
            start <= i <= s.len(),
            forall|j: int| start <= j < i ==> s@[j] != c,
            split(s@, c) == out@.map_values(|l: Vec<char>| l@) + split(
                s@.subrange(start as int, s.len() as int),
                c,
            ),
        decreases s.len() - i,
    {
        if s[i] == c {
            let ghost rest = s@.subrange(start as int, s.len() as int);
            proof {
                assert forall|j: int| 0 <= j < i - start implies rest[j] != c by {
                    assert(rest[j] == s@[start + j]);
                }
                lemma_index_of_found(rest, c, i - start);
                assert(rest.subrange(0, i - start) =~= s@.subrange(start as int, i as int));
                assert(rest.subrange(i - start + 1, rest.len() as int) =~= s@.subrange(
                    i + 1,
                    s.len() as int,
                ));
            }
            let piece = slice(s, start, i);
            let ghost before = out@;
            out.push(piece);
            proof {
                assert(out@.map_values(|l: Vec<char>| l@) =~= before.map_values(
                    |l: Vec<char>| l@,
                ).push(piece@));
            }
            start = i + 1;
        }
        i = i + 1;
    }
    let ghost rest = s@.subrange(start as int, s.len() as int);
    proof {
        assert forall|j: int| 0 <= j < rest.len() implies rest[j] != c by {
            assert(rest[j] == s@[start + j]);
        }
        lemma_index_of_absent(rest, c);
    }
    let ghost before = out@;
    let last = slice(s, start, s.len());
    out.push(last);
    proof {
        assert(out@.map_values(|l: Vec<char>| l@) =~= before.map_values(|l: Vec<char>| l@).push(
            rest,
        ));
    }
    out
}

/// Index of the first `c` in `s`, if any (`str::find` on a char).
pub fn find_char(s: &[char], c: char) -> (r: Option<usize>)
    ensures
        r matches Some(i) ==> index_of(s@, c) == i,
        r is None ==> index_of(s@, c) == -1,
{
    let mut i: usize = 0;
    while i < s.len()
        invariant
            i <= s.len(),
            forall|j: int| 0 <= j < i ==> s@[j] != c,
        decreases s.len() - i,
    {
        if s[i] == c {
            proof {
                lemma_index_of_found(s@, c, i as int);
            }
            return Some(i);
        }
        i = i + 1;
    }
    proof {
        lemma_index_of_absent(s@, c);
    }
    None
}

/// The lines of `s`, as `str::lines` yields them.
pub fn split_lines(s: &[char]) -> (r: Vec<Vec<char>>)
    ensures
        r@.len() == lines(s@).len(),
        forall|k: int| 0 <= k < r@.len() ==> #[trigger] r@[k]@ == lines(s@)[k],
{
    let mut out: Vec<Vec<char>> = Vec::new();
    assert(s@.subrange(0, s@.len() as int) =~= s@);
    assert(out@.map_values(|l: Vec<char>| l@) =~= Seq::<Seq<char>>::empty());
    let mut start: usize = 0;
    let mut i: usize = 0;
    while i < s.len()
        invariant
            start <= i <= s.len(),
            forall|j: int| start <= j < i ==> s@[j] != '\n',
            lines(s@) == out@.map_values(|l: Vec<char>| l@) + lines(
                s@.subrange(start as int, s.len() as int),
            ),
        decreases s.len() - i,
    {
        if s[i] == '\n' {
            let ghost rest = s@.subrange(start as int, s.len() as int);
            proof {
                assert forall|j: int| 0 <= j < i - start implies rest[j] != '\n' by {
                    assert(rest[j] == s@[start + j]);
                }
                lemma_index_of_found(rest, '\n', i - start);
                assert(rest.subrange(0, i - start) =~= s@.subrange(start as int, i as int));
                assert(rest.subrange(i - start + 1, rest.len() as int) =~= s@.subrange(
                    i + 1,
                    s.len() as int,
                ));
            }
            let line = slice(s, start, i);
            let line = strip_cr_chars(line);
            let ghost before = out@;
            out.push(line);
            proof {
                assert(out@.map_values(|l: Vec<char>| l@) =~= before.map_values(
                    |l: Vec<char>| l@,
                ).push(line@));
            }
            start = i + 1;
        }
        i = i + 1;
    }
    let ghost rest = s@.subrange(start as int, s.len() as int);
    if start < s.len() {
        proof {
            assert forall|j: int| 0 <= j < rest.len() implies rest[j] != '\n' by {
                assert(rest[j] == s@[start + j]);
            }
            lemma_index_of_absent(rest, '\n');
        }
        let ghost before = out@;
        let last = slice(s, start, s.len());
        out.push(last);
        proof {
            assert(out@.map_values(|l: Vec<char>| l@) =~= before.map_values(|l: Vec<char>| l@).push(
                rest,
            ));
        }
    } else {
        assert(rest.len() == 0);
        assert(out@.map_values(|l: Vec<char>| l@) + lines(rest) =~= out@.map_values(
            |l: Vec<char>| l@,
        ));
    }
    out
}

/// The pieces of `s` between occurrences of the non-empty pattern `p`.
pub fn split_on_str(s: &[char], p: &[char]) -> (r: Vec<Vec<char>>)
    requires
        p@.len() > 0,
    ensures
        r@.map_values(|x: Vec<char>| x@) == split_str(s@, p@),
{
    let mut out: Vec<Vec<char>> = Vec::new();
    let mut rest = slice(s, 0, s.len());
    assert(rest@ =~= s@);
    loop
        invariant
            p@.len() > 0,
            out@.map_values(|x: Vec<char>| x@) + split_str(rest@, p@) == split_str(s@, p@),
        decreases rest@.len(),
    {
        proof {
            lemma_first_occurrence_range(rest@, p@);
        }
        let ghost before = out@.map_values(|x: Vec<char>| x@);
        match find(&rest, p) {
            None => {
                proof {
                    if first_occurrence(rest@, p@) >= 0 {
                        assert(contains(rest@, p@));
                    }
                }
                out.push(rest);
                proof {
                    assert(out@.map_values(|x: Vec<char>| x@) =~= before + split_str(rest@, p@));
                }
                return out;
            },
            Some(i) => {
                proof {
                    let f = first_occurrence(rest@, p@);
                    if f < 0 {
                        assert(occurs_at(rest@, p@, i as int));
                    }
                    assert(f == i);
                }
                let n = rest.len();
                let piece = slice(&rest, 0, i);
                let next = slice(&rest, i + p.len(), n);
                out.push(piece);
                proof {
                    assert(out@.map_values(|x: Vec<char>| x@) =~= before.push(piece@));
                    assert(before.push(piece@) + split_str(next@, p@) =~= before + split_str(rest@, p@));
                }
                rest = next;
            },
        }
    }
}

/// `s` with each occurrence of the non-empty pattern `p` replaced by `r`.
pub fn replace_str(s: &[char], p: &[char], r: &[char]) -> (out: Vec<char>)
    requires
        p@.len() > 0,
    ensures
        out@ == replace_all(s@, p@, r@),
{
    let mut out: Vec<char> = Vec::new();
    let mut rest = slice(s, 0, s.len());
    assert(rest@ =~= s@);
    loop
        invariant
            p@.len() > 0,
            out@ + replace_all(rest@, p@, r@) == replace_all(s@, p@, r@),
        decreases rest@.len(),
    {
        proof {
            lemma_first_occurrence_range(rest@, p@);
        }
        let ghost before = out@;
        match find(&rest, p) {
            None => {
                proof {
                    if first_occurrence(rest@, p@) >= 0 {
                        assert(contains(rest@, p@));
                    }
                }
                push_chars(&mut out, &rest);
                return out;
            },
            Some(i) => {
                proof {
                    let f = first_occurrence(rest@, p@);
                    if f < 0 {
                        assert(occurs_at(rest@, p@, i as int));
                    }
                    assert(f == i);
                }
                let n = rest.len();
                let piece = slice(&rest, 0, i);
                let next = slice(&rest, i + p.len(), n);
                push_chars(&mut out, &piece);
                push_chars(&mut out, r);
                proof {
                    assert(out@ + replace_all(next@, p@, r@) =~= before + replace_all(rest@, p@, r@));
                }
                rest = next;
            },
        }
    }
}

/// The whitespace-separated words of `s`.
pub fn split_words(s: &[char]) -> (r: Vec<Vec<char>>)
    ensures
        r@.map_values(|x: Vec<char>| x@) == words(s@),
{
    let mut out: Vec<Vec<char>> = Vec::new();
    let mut i: usize = 0;
    let mut start: usize = 0;
    let mut in_word = false;
    assert(s@.skip(0) =~= s@);
    while i < s.len()
        invariant
            i <= s.len(),
            start <= i,
            !in_word ==> start == i && out@.map_values(|x: Vec<char>| x@) + words(s@.skip(i as int)) == words(s@),
            in_word ==> start < i && (forall|j: int| start <= j < i ==> !is_space(#[trigger] s@[j]))
                && out@.map_values(|x: Vec<char>| x@) + words(s@.skip(start as int)) == words(s@),
        decreases s.len() - i,
    {
        let sp = is_space_char(s[i]);
        if sp {
            if in_word {
                let ghost before = out@.map_values(|x: Vec<char>| x@);
                let piece = slice(s, start, i);
                out.push(piece);
                proof {
                    let t = s@.skip(start as int);
                    lemma_word_len_exact(t, i - start);
                    assert(t.take(i - start) =~= piece@);
                    assert(t.skip(i - start) =~= s@.skip(i as int));
                    assert(out@.map_values(|x: Vec<char>| x@) =~= before.push(piece@));
                    assert(before.push(piece@) + words(s@.skip(i as int)) =~= before + (seq![piece@] + words(s@.skip(i as int))));
                }
                in_word = false;
            }
            proof {
                assert(s@.skip(i as int).drop_first() =~= s@.skip(i + 1));
            }
            i = i + 1;
            start = i;
        } else {
            if !in_word {
                start = i;
                in_word = true;
            }
            i = i + 1;
        }
    }
    if in_word {
        let ghost before = out@.map_values(|x: Vec<char>| x@);
        let piece = slice(s, start, s.len());
        out.push(piece);
        proof {
            let t = s@.skip(start as int);
            lemma_word_len_exact(t, s.len() - start);
            assert(t.take(s.len() - start) =~= piece@);
            assert(t.skip(s.len() - start).len() == 0);
            assert(out@.map_values(|x: Vec<char>| x@) =~= before.push(piece@));
            assert(before.push(piece@) =~= before + (seq![piece@] + words(t.skip(s.len() - start))));
        }
    } else {
        assert(s@.skip(i as int).len() == 0);
        assert(out@.map_values(|x: Vec<char>| x@) + words(s@.skip(i as int)) =~= out@.map_values(|x: Vec<char>| x@));
    }
    out
}

} // verus!
