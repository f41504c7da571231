//! Ordering of strings as `Ord for str` orders them, and sorted,
//! duplicate-free lists of strings (`sort` followed by `dedup`).
//!
//! `str` compares byte-wise; UTF-8 keeps the order of code points, so the
//! order is the lexicographic order of the characters' code points.
use vstd::prelude::*;

verus! {

/// `a` sorts strictly before `b`.
pub open spec fn lex_lt(a: Seq<char>, b: Seq<char>) -> bool
    decreases a.len(),
{
    if a.len() == 0 {
        b.len() > 0
    } else if b.len() == 0 {
        false
    } else if a[0] != b[0] {
        (a[0] as u32) < (b[0] as u32)
    } else {
        lex_lt(a.drop_first(), b.drop_first())
    }
}

/// Each string sorts strictly before the next one: sorted and free of
/// duplicates.
pub open spec fn strictly_sorted(s: Seq<Seq<char>>) -> bool {
    forall|i: int, j: int| 0 <= i < j < s.len() ==> lex_lt(#[trigger] s[i], #[trigger] s[j])
}

/// The views of a list of character vectors.
pub open spec fn views(v: Seq<Vec<char>>) -> Seq<Seq<char>> {
    v.map_values(|x: Vec<char>| x@)
}

pub proof fn lemma_lex_irreflexive(a: Seq<char>)
    ensures
        !lex_lt(a, a),
    decreases a.len(),
{
    if a.len() > 0 {
        lemma_lex_irreflexive(a.drop_first());
    }
}

pub proof fn lemma_lex_asymmetric(a: Seq<char>, b: Seq<char>)
    requires
        lex_lt(a, b),
    ensures
        !lex_lt(b, a),
    decreases a.len(),
{
    if a.len() > 0 && b.len() > 0 && a[0] == b[0] {
        lemma_lex_asymmetric(a.drop_first(), b.drop_first());
    }
}

pub proof fn lemma_lex_transitive(a: Seq<char>, b: Seq<char>, c: Seq<char>)
    requires
        lex_lt(a, b),
        lex_lt(b, c),
    ensures
        lex_lt(a, c),
    decreases a.len(),
{
    if a.len() > 0 && b.len() > 0 && c.len() > 0 && a[0] == b[0] && b[0] == c[0] {
        lemma_lex_transitive(a.drop_first(), b.drop_first(), c.drop_first());
    }
}

pub proof fn lemma_lex_total(a: Seq<char>, b: Seq<char>)
    requires
        a != b,
    ensures
        lex_lt(a, b) || lex_lt(b, a),
    decreases a.len(),
{
    if a.len() > 0 && b.len() > 0 && a[0] == b[0] {
        if a.drop_first() == b.drop_first() {
            assert(a =~= seq![a[0]] + a.drop_first());
            assert(b =~= seq![b[0]] + b.drop_first());
        }
        lemma_lex_total(a.drop_first(), b.drop_first());
    } else if a.len() == 0 && b.len() == 0 {
        assert(a =~= b);
    } else if a.len() > 0 && b.len() > 0 {
        let u = a[0] as u32;
        let w = b[0] as u32;
        vstd::utf8::char_u32_cast(a[0], u);
        vstd::utf8::char_u32_cast(b[0], w);
    }
}

/// Whether `a` sorts strictly before `b`.
pub fn lex_less(a: &[char], b: &[char]) -> (r: bool)
    ensures
        r == lex_lt(a@, b@),
{
    let mut i: usize = 0;
    assert(a@.skip(0) =~= a@);
    assert(b@.skip(0) =~= b@);
    while i < a.len() && i < b.len() && a[i] == b[i]
        invariant
            i <= a.len(),
            i <= b.len(),
            lex_lt(a@, b@) == lex_lt(a@.skip(i as int), b@.skip(i as int)),
        decreases a.len() - i,
    {
        proof {
            let x = a@.skip(i as int);
            let y = b@.skip(i as int);
            assert(x.drop_first() =~= a@.skip(i + 1));
            assert(y.drop_first() =~= b@.skip(i + 1));
        }
        i = i + 1;
    }
    if i == a.len() {
        i < b.len()
    } else if i == b.len() {
        false
    } else {
        (a[i] as u32) < (b[i] as u32)
    }
}

/// Inserts `x` into the strictly sorted `v` unless it is there already.
pub fn insert_sorted(v: &mut Vec<Vec<char>>, x: Vec<char>)
    requires
        strictly_sorted(views(old(v)@)),
    ensures
        strictly_sorted(views(final(v)@)),
        views(final(v)@).to_set() == views(old(v)@).to_set().insert(x@),
{
    let ghost old_views = views(v@);
    let mut i: usize = 0;
    while i < v.len() && lex_less(&v[i], &x)
        invariant
            i <= v@.len(),
            v@ == old(v)@,
            old_views == views(v@),
            strictly_sorted(old_views),
            forall|j: int| 0 <= j < i ==> lex_lt(#[trigger] old_views[j], x@),
        decreases v@.len() - i,
    {
        i = i + 1;
    }
    if i < v.len() && crate::text::same_chars(&v[i], &x) {
        assert(old_views.to_set().insert(x@) =~= old_views.to_set()) by {
            assert(old_views[i as int] == x@);
        }
        return;
    }
    proof {
        if i < v@.len() {
            lemma_lex_total(old_views[i as int], x@);
        }
    }
    v.insert(i, x);
    proof {
        let nv = views(v@);
        assert(nv =~= old_views.subrange(0, i as int).push(x@) + old_views.subrange(
            i as int,
            old_views.len() as int,
        ));
        assert forall|a: int, b: int| 0 <= a < b < nv.len() implies lex_lt(
            #[trigger] nv[a],
            #[trigger] nv[b],
        ) by {
            if b < i {
                assert(nv[a] == old_views[a] && nv[b] == old_views[b]);
            } else if b == i {
                assert(nv[a] == old_views[a]);
            } else if a == i {
                assert(nv[b] == old_views[b - 1]);
                if b - 1 > i {
                    lemma_lex_transitive(x@, old_views[i as int], old_views[b - 1]);
                }
            } else if a < i {
                assert(nv[a] == old_views[a] && nv[b] == old_views[b - 1]);
            } else {
                assert(nv[a] == old_views[a - 1] && nv[b] == old_views[b - 1]);
            }
        }
        assert forall|y: Seq<char>| nv.to_set().contains(y) <==> old_views.to_set().insert(
            x@,
        ).contains(y) by {
            if nv.to_set().contains(y) {
                let k = choose|k: int| 0 <= k < nv.len() && nv[k] == y;
                if k < i {
                    assert(old_views[k] == y);
                } else if k > i {
                    assert(old_views[k - 1] == y);
                }
            }
            if old_views.to_set().contains(y) && y != x@ {
                let k = choose|k: int| 0 <= k < old_views.len() && old_views[k] == y;
                if k < i {
                    assert(nv[k] == y);
                } else {
                    assert(nv[k + 1] == y);
                }
            }
            if y == x@ {
                assert(nv[i as int] == y);
            }
        }
        assert(nv.to_set() =~= old_views.to_set().insert(x@));
    }
}

/// The strings of `items`, sorted and without duplicates.
pub fn sort_dedup(items: Vec<Vec<char>>) -> (r: Vec<Vec<char>>)
    ensures
        strictly_sorted(views(r@)),
        views(r@).to_set() == views(items@).to_set(),
{
    let mut out: Vec<Vec<char>> = Vec::new();
    let mut i: usize = 0;
    assert(views(out@).to_set() =~= views(items@.take(0)).to_set());
    while i < items.len()
        invariant
            i <= items@.len(),
            strictly_sorted(views(out@)),
            views(out@).to_set() == views(items@.take(i as int)).to_set(),
        decreases items@.len() - i,
    {
        let x = items[i].clone();
        proof {
            assert(items@.take(i + 1) =~= items@.take(i as int).push(items@[i as int]));
            assert(views(items@.take(i + 1)) =~= views(items@.take(i as int)).push(items@[i as int]@));
            views(items@.take(i as int)).lemma_push_to_set_commute(items@[i as int]@);
        }
        assert(x@ == items@[i as int]@);
        insert_sorted(&mut out, x);
        i = i + 1;
    }
    assert(items@.take(items@.len() as int) == items@);
    out
}

/// Index `a` sorts before index `b` when its key is smaller, or the keys are
/// equal and `a` comes first (the order of a stable sort).
pub open spec fn key_before(keys: Seq<Seq<char>>, a: int, b: int) -> bool {
    lex_lt(keys[a], keys[b]) || (keys[a] == keys[b] && a < b)
}

/// `order` lists indices of `keys`, as many as there are keys, in the order
/// of a stable sort by key; being strictly ordered, no index occurs twice.
pub open spec fn stable_order(keys: Seq<Seq<char>>, order: Seq<usize>) -> bool {
    &&& order.len() == keys.len()
    &&& forall|i: int| 0 <= i < order.len() ==> #[trigger] order[i] < keys.len()
    &&& forall|i: int, j: int| 0 <= i < j < order.len() ==> key_before(keys, #[trigger] order[i] as int, #[trigger] order[j] as int)
}

/// The positions of `keys` in the order a stable sort by key puts them.
pub fn sorted_order(keys: &Vec<Vec<char>>) -> (order: Vec<usize>)
    ensures
        stable_order(views(keys@), order@),
{
    let ghost k = views(keys@);
    let mut out: Vec<usize> = Vec::new();
    let mut i: usize = 0;
    while i < keys.len()
        invariant
            i <= keys@.len(),
            k == views(keys@),
            out@.len() == i,
            forall|a: int| 0 <= a < out@.len() ==> #[trigger] out@[a] < i,
            forall|a: int, b: int| 0 <= a < b < out@.len() ==> key_before(k, #[trigger] out@[a] as int, #[trigger] out@[b] as int),
        decreases keys@.len() - i,
    {
        let mut pos: usize = 0;
        while pos < out.len() && !lex_less(&keys[i], &keys[out[pos]])
            invariant
                i < keys@.len(),
                k == views(keys@),
                pos <= out@.len(),
                forall|a: int| 0 <= a < out@.len() ==> #[trigger] out@[a] < i,
                forall|a: int| 0 <= a < pos ==> !lex_lt(k[i as int], k[#[trigger] out@[a] as int]),
            decreases out@.len() - pos,
        {
            pos = pos + 1;
        }
        let ghost old_out = out@;
        out.insert(pos, i);
        proof {
            assert(out@ == old_out.insert(pos as int, i));
            assert forall|a: int, b: int| 0 <= a < b < out@.len() implies key_before(k, #[trigger] out@[a] as int, #[trigger] out@[b] as int) by {
                if b < pos {
                    assert(out@[a] == old_out[a] && out@[b] == old_out[b]);
                } else if b == pos {
                    let x = old_out[a];
                    assert(out@[a] == x);
                    assert(!lex_lt(k[i as int], k[x as int]));
                    if k[i as int] != k[x as int] {
                        lemma_lex_total(k[i as int], k[x as int]);
                    }
                } else if a == pos {
                    let y = old_out[b - 1];
                    assert(out@[b] == y);
                    let z = old_out[pos as int];
                    assert(lex_lt(k[i as int], k[z as int]));
                    if b - 1 > pos {
                        assert(key_before(k, z as int, y as int));
                        if lex_lt(k[z as int], k[y as int]) {
                            lemma_lex_transitive(k[i as int], k[z as int], k[y as int]);
                        }
                    }
                } else if a < pos {
                    assert(out@[a] == old_out[a] && out@[b] == old_out[b - 1]);
                } else {
                    assert(out@[a] == old_out[a - 1] && out@[b] == old_out[b - 1]);
                }
            }
            assert forall|a: int| 0 <= a < out@.len() implies #[trigger] out@[a] < i + 1 by {
                if a < pos {
                    assert(out@[a] == old_out[a]);
                } else if a > pos {
                    assert(out@[a] == old_out[a - 1]);
                }
            }
        }
        i = i + 1;
    }
    out
}

} // verus!
