//! Ordering the positions of a list by sort keys.

use vstd::prelude::*;

verus! {

/// Whether position `i` comes before position `j` when positions are ordered
/// by rising key, and by rising position where the keys are equal.
pub open spec fn key_before(keys: Seq<u32>, i: int, j: int) -> bool {
    keys[i] < keys[j] || (keys[i] == keys[j] && i < j)
}

/// Whether `order` lists the first `count` positions of `keys`, each once,
/// by rising key, positions with equal keys by rising position.
pub open spec fn is_key_order_of_first(keys: Seq<u32>, count: int, order: Seq<usize>) -> bool {
    &&& order.len() == count
    &&& forall|k: int| 0 <= k < order.len() ==> 0 <= #[trigger] order[k] < count
    &&& forall|j: usize| j < count ==> #[trigger] order.contains(j)
    &&& forall|a: int, b: int|
        0 <= a < b < order.len() ==> key_before(
            keys,
            #[trigger] order[a] as int,
            #[trigger] order[b] as int,
        )
}

/// Whether `order` lists every position of `keys` once, by rising key,
/// positions with equal keys by rising position: the order in which a stable
/// sort by key leaves the positions.
pub open spec fn is_key_order(keys: Seq<u32>, order: Seq<usize>) -> bool {
    is_key_order_of_first(keys, keys.len() as int, order)
}

/// The positions of `keys` in the order of a stable sort by key.
pub fn order_by_keys(keys: &Vec<u32>) -> (order: Vec<usize>)
    ensures
        is_key_order(keys@, order@),
{
    let mut order: Vec<usize> = Vec::new();
    let mut i: usize = 0;
    while i < keys.len()
        invariant
            i <= keys.len(),
            is_key_order_of_first(keys@, i as int, order@),
        decreases keys.len() - i,
    {
        let key = keys[i];
        let mut p: usize = order.len();
        while p > 0 && keys[order[p - 1]] > key
            invariant
                p <= order.len(),
                i < keys.len(),
                key == keys@[i as int],
                is_key_order_of_first(keys@, i as int, order@),
                forall|q: int| p <= q < order.len() ==> keys@[#[trigger] order@[q] as int] > key,
            decreases p,
        {
            p = p - 1;
        }
        let ghost before = order@;
        order.insert(p, i);
        proof {
            let after = order@;
            assert(after.len() == before.len() + 1);
            assert(after[p as int] == i);
            assert(forall|k: int| 0 <= k < p ==> after[k] == before[k]);
            assert(forall|k: int| p < k < after.len() ==> after[k] == before[k - 1]);
            assert forall|k: int| 0 <= k < p implies keys@[#[trigger] before[k] as int] <= key by {
                if k < p - 1 {
                    assert(key_before(keys@, before[k] as int, before[p - 1] as int));
                }
            }
            assert forall|j: usize| j < i + 1 implies #[trigger] after.contains(j) by {
                if j == i {
                    assert(after[p as int] == j);
                } else {
                    assert(before.contains(j));
                    let k0 = choose|k: int| 0 <= k < before.len() && before[k] == j;
                    if k0 < p {
                        assert(after[k0] == j);
                    } else {
                        assert(after[k0 + 1] == j);
                    }
                }
            }
            assert forall|a: int, b: int| 0 <= a < b < after.len() implies key_before(
                keys@,
                #[trigger] after[a] as int,
                #[trigger] after[b] as int,
            ) by {
                if b < p {
                    assert(after[a] == before[a] && after[b] == before[b]);
                } else if b == p {
                    assert(after[a] == before[a]);
                    assert(keys@[before[a] as int] <= key);
                } else if a < p {
                    assert(after[a] == before[a] && after[b] == before[b - 1]);
                    if a == b - 1 {
                    }
                } else if a == p {
                    assert(after[b] == before[b - 1]);
                    assert(keys@[before[b - 1] as int] > key);
                } else {
                    assert(after[a] == before[a - 1] && after[b] == before[b - 1]);
                }
            }
        }
        i = i + 1;
    }
    order
}

/// Two orders by the same keys agree up to position `k`.
proof fn lemma_key_orders_agree(keys: Seq<u32>, first: Seq<usize>, second: Seq<usize>, k: int)
    requires
        is_key_order(keys, first),
        is_key_order(keys, second),
        0 <= k < keys.len(),
    ensures
        forall|m: int| 0 <= m <= k ==> first[m] == second[m],
    decreases k,
{
    if k > 0 {
        lemma_key_orders_agree(keys, first, second, k - 1);
    }
    if first[k] != second[k] {
        assert(second.contains(first[k]));
        let q = choose|q: int| 0 <= q < second.len() && second[q] == first[k];
        if q < k {
            assert(key_before(keys, first[q] as int, first[k] as int));
        }
        assert(key_before(keys, second[k] as int, second[q] as int));
        assert(first.contains(second[k]));
        let p = choose|p: int| 0 <= p < first.len() && first[p] == second[k];
        if p < k {
            assert(key_before(keys, second[p] as int, second[k] as int));
        }
        assert(key_before(keys, first[k] as int, first[p] as int));
    }
}

/// The keys fix the order: there is one order by given keys and no other.
pub proof fn lemma_key_order_unique(keys: Seq<u32>, first: Seq<usize>, second: Seq<usize>)
    requires
        is_key_order(keys, first),
        is_key_order(keys, second),
    ensures
        first == second,
{
    if keys.len() > 0 {
        lemma_key_orders_agree(keys, first, second, keys.len() - 1);
    }
    assert(first =~= second);
}

} // verus!
