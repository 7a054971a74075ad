//! Stable ordering by integer keys compared lexicographically.
//!
//! Sorting vintages newest first and records by MIC both reduce to this: each
//! item gets a sequence of integers as its key, and the result lists the items'
//! positions in key order, items with equal keys keeping their original order.

use vstd::prelude::*;

verus! {

/// Lexicographic comparison of integer sequences: negative, zero or positive.
pub open spec fn lex_order(a: Seq<i128>, b: Seq<i128>) -> int
    decreases a.len(),
{
    if a.len() == 0 {
        if b.len() == 0 {
            0
        } else {
            -1
        }
    } else if b.len() == 0 {
        1
    } else if a[0] < b[0] {
        -1
    } else if a[0] > b[0] {
        1
    } else {
        lex_order(a.drop_first(), b.drop_first())
    }
}

/// Item `i` is listed before item `j`: a smaller key, or an equal key and an
/// earlier position.
pub open spec fn listed_before(keys: Seq<Seq<i128>>, i: int, j: int) -> bool {
    lex_order(keys[i], keys[j]) < 0 || (lex_order(keys[i], keys[j]) == 0 && i < j)
}

/// `order` lists every position below `n` exactly once.
pub open spec fn is_permutation(order: Seq<usize>, n: int) -> bool {
    &&& order.len() == n
    &&& forall|k: int| 0 <= k < n ==> #[trigger] order[k] < n
    &&& forall|a: int, b: int| 0 <= a < b < n ==> order[a] != order[b]
    &&& forall|x: int| 0 <= x < n ==> #[trigger] order.contains(x as usize)
}

/// `order` lists positions in key order, equal keys in their original order.
pub open spec fn stably_sorted(keys: Seq<Seq<i128>>, order: Seq<usize>) -> bool {
    forall|a: int, b: int|
        0 <= a < b < order.len() ==> #[trigger] listed_before(keys, order[a] as int, order[b] as int)
}

pub proof fn lemma_lex_order_range(a: Seq<i128>, b: Seq<i128>)
    ensures
        -1 <= lex_order(a, b) <= 1,
    decreases a.len(),
{
    if a.len() > 0 && b.len() > 0 && a[0] == b[0] {
        lemma_lex_order_range(a.drop_first(), b.drop_first());
    }
}

pub proof fn lemma_lex_order_antisymmetric(a: Seq<i128>, b: Seq<i128>)
    ensures
        lex_order(a, b) == -lex_order(b, a),
    decreases a.len(),
{
    if a.len() > 0 && b.len() > 0 && a[0] == b[0] {
        lemma_lex_order_antisymmetric(a.drop_first(), b.drop_first());
    }
}

pub proof fn lemma_lex_order_zero_is_equal(a: Seq<i128>, b: Seq<i128>)
    ensures
        lex_order(a, b) == 0 <==> a == b,
    decreases a.len(),
{
    if a.len() == 0 && b.len() == 0 {
        assert(a =~= b);
    } else if a.len() == 0 || b.len() == 0 {
        assert(a.len() != b.len());
    } else if a[0] != b[0] {
        lemma_lex_order_range(a, b);
        assert(a[0] != b[0]);
    } else {
        lemma_lex_order_zero_is_equal(a.drop_first(), b.drop_first());
        if a.drop_first() == b.drop_first() {
            assert(a =~= seq![a[0]] + a.drop_first());
            assert(b =~= seq![b[0]] + b.drop_first());
        }
        if a == b {
            assert(a.drop_first() == b.drop_first());
        }
    }
}

pub proof fn lemma_lex_order_transitive(a: Seq<i128>, b: Seq<i128>, c: Seq<i128>)
    requires
        lex_order(a, b) <= 0,
        lex_order(b, c) <= 0,
    ensures
        lex_order(a, c) <= 0,
        (lex_order(a, b) < 0 || lex_order(b, c) < 0) ==> lex_order(a, c) < 0,
    decreases a.len(),
{
    if a.len() > 0 && b.len() > 0 && c.len() > 0 && a[0] == b[0] && b[0] == c[0] {
        lemma_lex_order_transitive(a.drop_first(), b.drop_first(), c.drop_first());
    }
}

/// Compare two keys.
pub fn compare_keys(a: &Vec<i128>, b: &Vec<i128>) -> (r: i8)
    ensures
        r == lex_order(a@, b@),
{
    let mut i: usize = 0;
    assert(a@.skip(0) =~= a@);
    assert(b@.skip(0) =~= b@);
    while i < a.len() && i < b.len()
        invariant
            i <= a@.len(),
            i <= b@.len(),
            lex_order(a@, b@) == lex_order(a@.skip(i as int), b@.skip(i as int)),
        decreases a@.len() - i,
    {
        if a[i] < b[i] {
            return -1;
        }
        if a[i] > b[i] {
            return 1;
        }
        assert(a@.skip(i as int).drop_first() =~= a@.skip(i + 1));
        assert(b@.skip(i as int).drop_first() =~= b@.skip(i + 1));
        i = i + 1;
    }
    if i < a.len() {
        1
    } else if i < b.len() {
        -1
    } else {
        0
    }
}

/// The positions of `keys` in key order; equal keys keep their order.
pub fn stable_order(keys: &Vec<Vec<i128>>) -> (order: Vec<usize>)
    ensures
        is_permutation(order@, keys@.len() as int),
        stably_sorted(keys@.map_values(|k: Vec<i128>| k@), order@),
{
    let ghost kv = keys@.map_values(|k: Vec<i128>| k@);
    let n = keys.len();
    let mut order: Vec<usize> = Vec::new();
    let mut i: usize = 0;
    while i < n
        invariant
            n == keys@.len(),
            kv == keys@.map_values(|k: Vec<i128>| k@),
            i <= n,
            order@.len() == i,
            forall|k: int| 0 <= k < i ==> #[trigger] order@[k] < i,
            forall|a: int, b: int| 0 <= a < b < i ==> order@[a] != order@[b],
            forall|x: int| 0 <= x < i ==> #[trigger] order@.contains(x as usize),
            stably_sorted(kv, order@),
        decreases n - i,
    {
        let mut p: usize = 0;
        while p < order.len() && compare_keys(&keys[i], &keys[order[p]]) >= 0
            invariant
                n == keys@.len(),
                kv == keys@.map_values(|k: Vec<i128>| k@),
                i < n,
                order@.len() == i,
                forall|k: int| 0 <= k < i ==> #[trigger] order@[k] < i,
                p <= order@.len(),
                forall|q: int| 0 <= q < p ==> lex_order(kv[i as int], kv[#[trigger] order@[q] as int]) >= 0,
            decreases order@.len() - p,
        {
            p = p + 1;
        }
        let ghost old_order = order@;
        order.insert(p, i);
        proof {
            assert forall|a: int, b: int| 0 <= a < b < order@.len() implies #[trigger] listed_before(
                kv,
                order@[a] as int,
                order@[b] as int,
            ) by {
                if b < p {
                    assert(order@[a] == old_order[a] && order@[b] == old_order[b]);
                } else if a > p {
                    assert(order@[a] == old_order[a - 1] && order@[b] == old_order[b - 1]);
                    assert(listed_before(kv, old_order[a - 1] as int, old_order[b - 1] as int));
                } else if a < p && b > p {
                    assert(order@[a] == old_order[a] && order@[b] == old_order[b - 1]);
                    assert(listed_before(kv, old_order[a] as int, old_order[b - 1] as int));
                } else if b == p {
                    let x = old_order[a] as int;
                    assert(order@[a] == x && order@[b] == i);
                    assert(lex_order(kv[i as int], kv[x]) >= 0);
                    lemma_lex_order_antisymmetric(kv[i as int], kv[x]);
                    assert(x < i);
                } else {
                    assert(a == p);
                    let y = old_order[b - 1] as int;
                    let z = old_order[p as int] as int;
                    assert(order@[a] == i && order@[b] == y);
                    assert(lex_order(kv[i as int], kv[z]) < 0);
                    if b - 1 > p {
                        assert(listed_before(kv, z, y));
                        lemma_lex_order_transitive(kv[i as int], kv[z], kv[y]);
                    }
                }
            }
            assert forall|x: int| 0 <= x < i + 1 implies #[trigger] order@.contains(x as usize) by {
                if x < i {
                    assert(old_order.contains(x as usize));
                    let q = choose|q: int| 0 <= q < old_order.len() && old_order[q] == x as usize;
                    if q < p {
                        assert(order@[q] == x as usize);
                    } else {
                        assert(order@[q + 1] == x as usize);
                    }
                } else {
                    assert(order@[p as int] == i);
                }
            }
            assert forall|a: int, b: int| 0 <= a < b < i + 1 implies order@[a] != order@[b] by {
                if b < p {
                    assert(order@[a] == old_order[a] && order@[b] == old_order[b]);
                } else if a > p {
                    assert(order@[a] == old_order[a - 1] && order@[b] == old_order[b - 1]);
                } else if a < p && b > p {
                    assert(order@[a] == old_order[a] && order@[b] == old_order[b - 1]);
                } else if b == p {
                    assert(order@[a] == old_order[a]);
                } else {
                    assert(order@[b] == old_order[b - 1]);
                }
            }
            assert forall|k: int| 0 <= k < i + 1 implies #[trigger] order@[k] < i + 1 by {
                if k < p {
                    assert(order@[k] == old_order[k]);
                } else if k > p {
                    assert(order@[k] == old_order[k - 1]);
                }
            }
        }
        i = i + 1;
    }
    order
}

} // verus!
