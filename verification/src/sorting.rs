//! Text ordering and a stable sort by text keys, as the browser uses to list
//! directory entries.
//!
//! Texts compare as `String`'s `Ord` does: byte-wise on UTF-8, which is the
//! lexicographic order of their characters by code point.

use crate::rng::is_permutation_of_range;
use crate::text::char_views;
use vstd::prelude::*;

verus! {

/// `a` sorts strictly before `b`.
pub open spec fn text_lt(a: Seq<char>, b: Seq<char>) -> bool
    decreases a.len(),
{
    if a.len() == 0 {
        b.len() > 0
    } else if b.len() == 0 {
        false
    } else if a[0] != b[0] {
        (a[0] as int) < (b[0] as int)
    } else {
        text_lt(a.drop_first(), b.drop_first())
    }
}

/// `a` sorts before `b` or equals it.
pub open spec fn text_le(a: Seq<char>, b: Seq<char>) -> bool {
    a == b || text_lt(a, b)
}

/// No text sorts before itself.
pub proof fn text_lt_irreflexive(a: Seq<char>)
    ensures
        !text_lt(a, a),
    decreases a.len(),
{
    if a.len() > 0 {
        text_lt_irreflexive(a.drop_first());
    }
}

/// Of two different texts, exactly one sorts before the other.
pub proof fn text_lt_total(a: Seq<char>, b: Seq<char>)
    ensures
        a != b ==> (text_lt(a, b) || text_lt(b, a)),
        !(text_lt(a, b) && text_lt(b, a)),
    decreases a.len(),
{
    if a.len() > 0 && b.len() > 0 && a[0] == b[0] {
        text_lt_total(a.drop_first(), b.drop_first());
        if a != b {
            assert(a.drop_first() != b.drop_first()) by {
                if a.drop_first() == b.drop_first() {
                    assert(a =~= seq![a[0]] + a.drop_first());
                    assert(b =~= seq![b[0]] + b.drop_first());
                }
            }
        }
    } else if a.len() == 0 && b.len() == 0 {
        assert(a =~= b);
    } else if a.len() > 0 && b.len() > 0 {
        assert(a[0] != b[0]);
        assert((a[0] as int) != (b[0] as int));
    }
}

/// Sorting before is transitive.
pub proof fn text_lt_transitive(a: Seq<char>, b: Seq<char>, c: Seq<char>)
    requires
        text_lt(a, b),
        text_lt(b, c),
    ensures
        text_lt(a, c),
    decreases a.len(),
{
    if a.len() > 0 && b.len() > 0 && c.len() > 0 && a[0] == b[0] && b[0] == c[0] {
        text_lt_transitive(a.drop_first(), b.drop_first(), c.drop_first());
    }
}

/// Whether `a` sorts strictly before `b`.
pub fn text_less(a: &[char], b: &[char]) -> (r: bool)
    ensures
        r == text_lt(a@, b@),
{
    let mut i: usize = 0;
    assert(a@.subrange(0, a@.len() as int) =~= a@);
    assert(b@.subrange(0, b@.len() as int) =~= b@);
    while i < a.len() && i < b.len() && a[i] == b[i]
        invariant
            i <= a@.len(),
            i <= b@.len(),
            a@.subrange(0, i as int) == b@.subrange(0, i as int),
            text_lt(a@, b@) == text_lt(a@.subrange(i as int, a@.len() as int), b@.subrange(
                i as int,
                b@.len() as int,
            )),
        decreases a@.len() - i,
    {
        proof {
            let ra = a@.subrange(i as int, a@.len() as int);
            let rb = b@.subrange(i as int, b@.len() as int);
            assert(ra.drop_first() =~= a@.subrange(i + 1, a@.len() as int));
            assert(rb.drop_first() =~= b@.subrange(i + 1, b@.len() as int));
            assert(a@.subrange(0, i + 1) =~= a@.subrange(0, i as int).push(a@[i as int]));
            assert(b@.subrange(0, i + 1) =~= b@.subrange(0, i as int).push(b@[i as int]));
        }
        i = i + 1;
    }
    proof {
        let ra = a@.subrange(i as int, a@.len() as int);
        let rb = b@.subrange(i as int, b@.len() as int);
        if i < a.len() {
            assert(ra[0] == a@[i as int]);
        }
        if i < b.len() {
            assert(rb[0] == b@[i as int]);
        }
    }
    if i == a.len() {
        i < b.len()
    } else if i == b.len() {
        false
    } else {
        a[i] < b[i]
    }
}

/// `order` lists the positions of `keys` in ascending key order, and positions
/// with equal keys in their original order — the order a stable sort by these
/// keys puts the items in.
pub open spec fn sorted_stably(keys: Seq<Seq<char>>, order: Seq<usize>) -> bool {
    &&& is_permutation_of_range(order, keys.len())
    &&& forall|i: int, j: int|
        0 <= i < j < order.len() ==> text_le(
            #[trigger] keys[order[i] as int],
            #[trigger] keys[order[j] as int],
        )
    &&& forall|i: int, j: int|
        0 <= i < j < order.len() && keys[order[i] as int] == keys[order[j] as int] ==> (
        #[trigger] order[i]) < #[trigger] order[j]
}

/// A stable sort's result is determined by its keys: two orders that both
/// sort the same keys stably are the same order.
pub proof fn stable_order_is_unique(keys: Seq<Seq<char>>, o1: Seq<usize>, o2: Seq<usize>)
    requires
        sorted_stably(keys, o1),
        sorted_stably(keys, o2),
    ensures
        o1 == o2,
{
    lemma_prefixes_agree(keys, o1, o2, o1.len());
    assert(o1 =~= o2);
}

proof fn lemma_prefixes_agree(keys: Seq<Seq<char>>, o1: Seq<usize>, o2: Seq<usize>, m: nat)
    requires
        sorted_stably(keys, o1),
        sorted_stably(keys, o2),
        m <= o1.len(),
    ensures
        forall|i: int| 0 <= i < m ==> o1[i] == o2[i],
    decreases m,
{
    if m > 0 {
        lemma_prefixes_agree(keys, o1, o2, (m - 1) as nat);
        let i = m - 1;
        let a = o1[i];
        let b = o2[i];
        if a != b {
            assert(o2.contains(a));
            let j = choose|j: int| 0 <= j < o2.len() && o2[j] == a;
            assert(j > i) by {
                if j < i {
                    assert(o1[j] == o2[j]);
                }
            }
            assert(o1.contains(b));
            let k = choose|k: int| 0 <= k < o1.len() && o1[k] == b;
            assert(k > i) by {
                if k < i {
                    assert(o2[k] == o1[k]);
                }
            }
            assert(text_le(keys[o1[i] as int], keys[o1[k] as int]));
            assert(text_le(keys[o2[i] as int], keys[o2[j] as int]));
            text_lt_total(keys[a as int], keys[b as int]);
            if keys[a as int] == keys[b as int] {
                assert(o1[i] < o1[k]);
                assert(o2[i] < o2[j]);
            }
        }
    }
}

/// The positions of `keys` in stable ascending key order.
pub fn stable_order(keys: &Vec<Vec<char>>) -> (r: Vec<usize>)
    ensures
        sorted_stably(char_views(keys@), r@),
{
    let ghost ks = char_views(keys@);
    let n = keys.len();
    let mut out: Vec<usize> = Vec::new();
    let mut i: usize = 0;
    while i < n
        invariant
            n == keys@.len(),
            ks == char_views(keys@),
            i <= n,
            out@.len() == i,
            forall|k: int| 0 <= k < out@.len() ==> (#[trigger] out@[k] as int) < i,
            forall|x: usize| (x as int) < i ==> #[trigger] out@.contains(x),
            out@.no_duplicates(),
            forall|i1: int, j1: int|
                0 <= i1 < j1 < out@.len() ==> text_le(
                    #[trigger] ks[out@[i1] as int],
                    #[trigger] ks[out@[j1] as int],
                ),
            forall|i1: int, j1: int|
                0 <= i1 < j1 < out@.len() && ks[out@[i1] as int] == ks[out@[j1] as int] ==> (
                #[trigger] out@[i1]) < #[trigger] out@[j1],
        decreases n - i,
    {
        let key = keys[i].as_slice();
        let mut p: usize = out.len();
        while p > 0 && text_less(key, keys[out[p - 1]].as_slice())
            invariant
                n == keys@.len(),
                ks == char_views(keys@),
                i < n,
                key@ == ks[i as int],
                p <= out@.len(),
                out@.len() == i,
                forall|k: int| 0 <= k < out@.len() ==> (#[trigger] out@[k] as int) < i,
                forall|q: int| p <= q < out@.len() ==> text_lt(ks[i as int], #[trigger] ks[out@[q] as int]),
            decreases p,
        {
            p = p - 1;
        }
        let ghost old_out = out@;
        proof {
            // Everything before the insertion point sorts at or before the new key.
            if p > 0 {
                let last = ks[old_out[p - 1] as int];
                text_lt_total(ks[i as int], last);
                assert forall|q: int| 0 <= q < p implies text_le(
                    #[trigger] ks[old_out[q] as int],
                    ks[i as int],
                ) by {
                    if q < p - 1 {
                        let kq = ks[old_out[q] as int];
                        assert(text_le(kq, last));
                        if kq != last && last != ks[i as int] {
                            text_lt_transitive(kq, last, ks[i as int]);
                        }
                    }
                }
            }
        }
        out.insert(p, i);
        proof {
            let ki = ks[i as int];
            assert(out@ =~= old_out.insert(p as int, i));
            assert forall|k: int| 0 <= k < out@.len() implies (#[trigger] out@[k] as int) < i + 1 by {
                if k < p {
                    assert(out@[k] == old_out[k]);
                } else if k > p {
                    assert(out@[k] == old_out[k - 1]);
                }
            }
            assert forall|x: usize| (x as int) < i + 1 implies #[trigger] out@.contains(x) by {
                if x == i {
                    assert(out@[p as int] == i);
                } else {
                    assert(old_out.contains(x));
                    let w = choose|w: int| 0 <= w < old_out.len() && old_out[w] == x;
                    if w < p {
                        assert(out@[w] == x);
                    } else {
                        assert(out@[w + 1] == x);
                    }
                }
            }
            assert(out@.no_duplicates()) by {
                assert forall|a: int, b: int| 0 <= a < out@.len() && 0 <= b < out@.len() && a
                    != b implies out@[a] != out@[b] by {
                    if a != p as int && b != p as int {
                        let oa = if a < p {
                            a
                        } else {
                            a - 1
                        };
                        let ob = if b < p {
                            b
                        } else {
                            b - 1
                        };
                        assert(out@[a] == old_out[oa]);
                        assert(out@[b] == old_out[ob]);
                    } else if a == p as int {
                        let ob = if b < p {
                            b
                        } else {
                            b - 1
                        };
                        assert(out@[b] == old_out[ob]);
                        assert((old_out[ob] as int) < i);
                    } else {
                        let oa = if a < p {
                            a
                        } else {
                            a - 1
                        };
                        assert(out@[a] == old_out[oa]);
                        assert((old_out[oa] as int) < i);
                    }
                }
            }
            assert forall|i1: int, j1: int| 0 <= i1 < j1 < out@.len() implies text_le(
                #[trigger] ks[out@[i1] as int],
                #[trigger] ks[out@[j1] as int],
            ) by {
                let o1 = if i1 < p {
                    i1
                } else {
                    i1 - 1
                };
                let o2 = if j1 < p {
                    j1
                } else {
                    j1 - 1
                };
                if i1 == p as int {
                    assert(out@[j1] == old_out[o2]);
                    assert(text_lt(ki, ks[old_out[o2] as int]));
                } else if j1 == p as int {
                    assert(out@[i1] == old_out[o1]);
                } else {
                    assert(out@[i1] == old_out[o1]);
                    assert(out@[j1] == old_out[o2]);
                    assert(o1 < o2);
                }
            }
            assert forall|i1: int, j1: int|
                0 <= i1 < j1 < out@.len() && ks[out@[i1] as int] == ks[out@[j1] as int] implies (
                #[trigger] out@[i1]) < #[trigger] out@[j1] by {
                let o1 = if i1 < p {
                    i1
                } else {
                    i1 - 1
                };
                let o2 = if j1 < p {
                    j1
                } else {
                    j1 - 1
                };
                if i1 == p as int {
                    assert(out@[j1] == old_out[o2]);
                    text_lt_irreflexive(ki);
                } else if j1 == p as int {
                    assert(out@[i1] == old_out[o1]);
                } else {
                    assert(out@[i1] == old_out[o1]);
                    assert(out@[j1] == old_out[o2]);
                }
            }
        }
        i = i + 1;
    }
    out
}

} // verus!
