//! Putting items in the order of their indices, keeping the arrival order among equal indices.

use vstd::prelude::*;

verus! {

/// Position `p` goes before position `q`: its key is smaller, or the keys are equal and
/// `p` arrived first.
pub open spec fn precedes(keys: Seq<usize>, p: int, q: int) -> bool {
    keys[p] < keys[q] || (keys[p] == keys[q] && p < q)
}

/// `order` lists every position of `keys` once, sorted by key, equal keys in arrival order.
pub open spec fn is_stable_order(keys: Seq<usize>, order: Seq<usize>) -> bool {
    &&& order.len() == keys.len()
    &&& forall|i: int| 0 <= i < order.len() ==> order[i] < keys.len()
    &&& forall|p: usize| p < keys.len() ==> #[trigger] order.contains(p)
    &&& forall|i: int, j: int|
        0 <= i < j < order.len() ==> precedes(keys, order[i] as int, order[j] as int)
}

/// The positions of `keys`, stably sorted by key (what a stable sort by key does to the items).
pub fn stable_order(keys: &Vec<usize>) -> (order: Vec<usize>)
    ensures
        is_stable_order(keys@, order@),
{
    let n = keys.len();
    let mut out: Vec<usize> = Vec::new();
    for p in 0..n
        invariant
            n == keys@.len(),
            out@.len() == p,
            forall|i: int| 0 <= i < out@.len() ==> out@[i] < p,
            forall|q: usize| q < p ==> #[trigger] out@.contains(q),
            forall|i: int, j: int|
                0 <= i < j < out@.len() ==> precedes(keys@, out@[i] as int, out@[j] as int),
    {
        let key = keys[p];
        let mut j: usize = 0;
        while j < out.len() && keys[out[j]] <= key
            invariant
                n == keys@.len(),
                j <= out@.len(),
                forall|i: int| 0 <= i < out@.len() ==> out@[i] < p,
                p < n,
                key == keys@[p as int],
                forall|k: int| 0 <= k < j ==> keys@[out@[k] as int] <= key,
            decreases out@.len() - j,
        {
            j = j + 1;
        }
        let ghost before = out@;
        proof {
            // every element from the insertion point on has a larger key
            assert forall|k: int| j <= k < before.len() implies keys@[before[k] as int] > key by {
                if k > j {
                    assert(precedes(keys@, before[j as int] as int, before[k] as int));
                }
            }
        }
        out.insert(j, p);
        proof {
            assert(out@ =~= before.take(j as int).push(p).add(before.skip(j as int)));
            assert forall|i: int, k: int|
                0 <= i < k < out@.len() implies precedes(keys@, out@[i] as int, out@[k] as int) by {
                if k < j {
                } else if k == j {
                } else if i < j {
                    assert(keys@[before[k - 1] as int] > key);
                } else if i == j {
                    assert(keys@[before[k - 1] as int] > key);
                } else {
                    assert(precedes(keys@, before[i - 1] as int, before[k - 1] as int));
                }
            }
            assert forall|q: usize| q < p + 1 implies #[trigger] out@.contains(q) by {
                if q == p {
                    assert(out@[j as int] == p);
                } else {
                    assert(before.contains(q));
                    let w = choose|w: int| 0 <= w < before.len() && before[w] == q;
                    if w < j {
                        assert(out@[w] == q);
                    } else {
                        assert(out@[w + 1] == q);
                    }
                }
            }
        }
    }
    out
}

proof fn lemma_agree_prefix(keys: Seq<usize>, a: Seq<usize>, b: Seq<usize>, i: int)
    requires
        is_stable_order(keys, a),
        is_stable_order(keys, b),
        0 <= i <= a.len(),
    ensures
        forall|k: int| 0 <= k < i ==> a[k] == b[k],
    decreases i,
{
    if i > 0 {
        lemma_agree_prefix(keys, a, b, i - 1);
        let j = i - 1;
        let x = a[j];
        let y = b[j];
        if x != y {
            assert(b.contains(x));
            let p = choose|p: int| 0 <= p < b.len() && b[p] == x;
            if p < j {
                assert(a[p] == x);
                assert(precedes(keys, a[p] as int, a[j] as int));
            }
            assert(p > j);
            assert(precedes(keys, y as int, x as int));
            assert(a.contains(y));
            let q = choose|q: int| 0 <= q < a.len() && a[q] == y;
            if q < j {
                assert(b[q] == y);
                assert(precedes(keys, b[q] as int, b[j] as int));
            }
            assert(q > j);
            assert(precedes(keys, x as int, y as int));
        }
    }
}

/// There is only one stable order of a list of keys: any two results agree, so the
/// order is exactly what a stable sort by key produces.
pub proof fn law_stable_order_unique(keys: Seq<usize>, a: Seq<usize>, b: Seq<usize>)
    requires
        is_stable_order(keys, a),
        is_stable_order(keys, b),
    ensures
        a == b,
{
    lemma_agree_prefix(keys, a, b, a.len() as int);
    assert(a =~= b);
}

/// A stable order returns the items with their indices ascending, and items with equal
/// indices in the order they arrived.
pub proof fn law_order_ascending(keys: Seq<usize>, order: Seq<usize>)
    requires
        is_stable_order(keys, order),
    ensures
        forall|i: int, j: int| 0 <= i < j < order.len() ==> keys[order[i] as int] <= keys[order[j] as int],
        forall|i: int, j: int| 0 <= i < j < order.len() && keys[order[i] as int] == keys[order[j] as int]
            ==> order[i] < order[j],
{
    assert forall|i: int, j: int| 0 <= i < j < order.len() implies keys[order[i] as int] <= keys[order[j] as int] by {
        assert(precedes(keys, order[i] as int, order[j] as int));
    }
    assert forall|i: int, j: int| 0 <= i < j < order.len() && keys[order[i] as int] == keys[order[j] as int]
        implies order[i] < order[j] by {
        assert(precedes(keys, order[i] as int, order[j] as int));
    }
}

} // verus!
