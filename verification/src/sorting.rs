//! Stable sorting by integer keys, and sums that do not depend on order.

use vstd::prelude::*;

verus! {

/// `order` lists each position below `n` once.
pub open spec fn is_permutation(order: Seq<usize>, n: nat) -> bool {
    &&& order.len() == n
    &&& forall|i: int| 0 <= i < order.len() ==> #[trigger] order[i] < n
    &&& forall|i: int, j: int| 0 <= i < j < order.len() ==> order[i] != order[j]
}

/// `order` lists the positions of `keys` by ascending key, equal keys in their
/// own order.
pub open spec fn is_stable_order(order: Seq<usize>, keys: Seq<u128>) -> bool {
    &&& order.len() == keys.len()
    &&& forall|i: int| 0 <= i < order.len() ==> #[trigger] order[i] < keys.len()
    &&& forall|i: int, j: int|
        0 <= i < j < order.len() ==> precedes(keys, #[trigger] order[i], #[trigger] order[j])
}

/// Position `a` comes before position `b` in a stable sort by `keys`.
pub open spec fn precedes(keys: Seq<u128>, a: usize, b: usize) -> bool {
    keys[a as int] < keys[b as int] || (keys[a as int] == keys[b as int] && a < b)
}

/// The elements of `items` in the order `order`.
pub open spec fn arranged<A>(items: Seq<A>, order: Seq<usize>) -> Seq<A> {
    Seq::new(order.len(), |i: int| items[order[i] as int])
}

/// The stable order of `keys`.
pub fn stable_order(keys: &Vec<u128>) -> (order: Vec<usize>)
    ensures
        is_stable_order(order@, keys@),
{
    let mut order: Vec<usize> = Vec::new();
    let mut n: usize = 0;
    while n < keys.len()
        invariant
            n <= keys.len(),
            order@.len() == n,
            forall|i: int| 0 <= i < order@.len() ==> #[trigger] order@[i] < n,
            forall|i: int, j: int|
                0 <= i < j < order@.len() ==> precedes(
                    keys@,
                    #[trigger] order@[i],
                    #[trigger] order@[j],
                ),
        decreases keys.len() - n,
    {
        let key: u128 = keys[n];
        let mut low: usize = 0;
        let mut high: usize = order.len();
        while low < high
            invariant
                n < keys.len(),
                key == keys@[n as int],
                low <= high <= order@.len(),
                forall|i: int| 0 <= i < order@.len() ==> #[trigger] order@[i] < n,
                forall|i: int, j: int|
                    0 <= i < j < order@.len() ==> precedes(
                        keys@,
                        #[trigger] order@[i],
                        #[trigger] order@[j],
                    ),
                forall|i: int| 0 <= i < low ==> keys@[#[trigger] order@[i] as int] <= key,
                forall|i: int|
                    high <= i < order@.len() ==> keys@[#[trigger] order@[i] as int] > key,
            decreases high - low,
        {
            let mid: usize = low + (high - low) / 2;
            let at: usize = order[mid];
            assert(order@[mid as int] < n);
            if keys[at] <= key {
                proof {
                    assert forall|i: int| 0 <= i < mid + 1 implies keys@[#[trigger] order@[i] as int]
                        <= key by {
                        if i < mid {
                            assert(precedes(keys@, order@[i], order@[mid as int]));
                        }
                    }
                }
                low = mid + 1;
            } else {
                proof {
                    assert forall|i: int| mid <= i < order@.len() implies keys@[
                        #[trigger] order@[i] as int] > key by {
                        if i > mid {
                            assert(precedes(keys@, order@[mid as int], order@[i]));
                        }
                    }
                }
                high = mid;
            }
        }
        let ghost before = order@;
        order.insert(low, n);
        proof {
            let after = order@;
            assert(after =~= before.insert(low as int, n));
            assert forall|i: int, j: int| 0 <= i < j < after.len() implies precedes(
                keys@,
                #[trigger] after[i],
                #[trigger] after[j],
            ) by {
                let a = if i < low { i } else { i - 1 };
                let b = if j < low { j } else { j - 1 };
                if i != low && j != low {
                    assert(after[i] == before[a] && after[j] == before[b]);
                    assert(precedes(keys@, before[a], before[b]));
                } else if j == low {
                    assert(after[i] == before[i]);
                    assert(keys@[before[i] as int] <= key);
                    assert(before[i] < n);
                } else {
                    assert(after[j] == before[j - 1]);
                    assert(keys@[before[j - 1] as int] > key);
                }
            }
            assert forall|i: int| 0 <= i < after.len() implies #[trigger] after[i] < n + 1 by {
                if i < low {
                    assert(after[i] == before[i]);
                } else if i > low {
                    assert(after[i] == before[i - 1]);
                }
            }
        }
        n = n + 1;
    }
    order
}

// ---------------------------------------------------------------------------
// Laws
// ---------------------------------------------------------------------------

/// A stable order is a permutation: nothing is lost and nothing is doubled.
pub proof fn law_stable_order_permutes(order: Seq<usize>, keys: Seq<u128>)
    requires
        is_stable_order(order, keys),
    ensures
        is_permutation(order, keys.len()),
{
    assert forall|i: int, j: int| 0 <= i < j < order.len() implies order[i] != order[j] by {
        assert(precedes(keys, order[i], order[j]));
    }
}

/// A permutation reaches every position.
pub proof fn lemma_permutation_hits(order: Seq<usize>, n: nat, v: int) -> (at: int)
    requires
        is_permutation(order, n),
        0 <= v < n,
    ensures
        0 <= at < order.len(),
        order[at] == v,
{
    let values = order.map_values(|x: usize| x as int);
    assert(values.no_duplicates()) by {
        assert forall|i: int, j: int|
            0 <= i < values.len() && 0 <= j < values.len() && i != j implies values[i]
            != values[j] by {
            if i < j {
                assert(order[i] != order[j]);
            } else {
                assert(order[j] != order[i]);
            }
        }
    }
    values.unique_seq_to_set();
    let set = values.to_set();
    let range = vstd::set_lib::set_int_range(0, n as int);
    vstd::set_lib::lemma_int_range(0, n as int);
    assert(set.subset_of(range)) by {
        assert forall|x: int| set.contains(x) implies range.contains(x) by {
            let i = choose|i: int| 0 <= i < values.len() && values[i] == x;
            assert(order[i] < n);
        }
    }
    vstd::set_lib::lemma_subset_equality(set, range);
    assert(set.contains(v));
    let at = choose|i: int| 0 <= i < values.len() && values[i] == v;
    assert(order[at] == v);
    at
}

/// Keys have one stable order only.
pub proof fn law_stable_order_unique(a: Seq<usize>, b: Seq<usize>, keys: Seq<u128>)
    requires
        is_stable_order(a, keys),
        is_stable_order(b, keys),
    ensures
        a == b,
{
    law_stable_order_permutes(a, keys);
    law_stable_order_permutes(b, keys);
    lemma_same_prefix(a, b, keys, keys.len());
    assert(a =~= b);
}

proof fn lemma_same_prefix(a: Seq<usize>, b: Seq<usize>, keys: Seq<u128>, n: nat)
    requires
        is_stable_order(a, keys),
        is_stable_order(b, keys),
        is_permutation(a, keys.len()),
        is_permutation(b, keys.len()),
        n <= keys.len(),
    ensures
        forall|i: int| 0 <= i < n ==> a[i] == b[i],
    decreases n,
{
    if n > 0 {
        lemma_same_prefix(a, b, keys, (n - 1) as nat);
        let i = n - 1;
        let p = lemma_permutation_hits(b, keys.len(), a[i] as int);
        let q = lemma_permutation_hits(a, keys.len(), b[i] as int);
        if p < i {
            assert(a[p] == b[p]);
            assert(a[p] != a[i]);
        }
        if q < i {
            assert(a[q] == b[q]);
            assert(b[q] != b[i]);
        }
        if p > i && q > i {
            assert(precedes(keys, b[i], b[p]));
            assert(precedes(keys, a[i], a[q]));
        }
    }
}

/// The sum of `f` over `items`.
pub open spec fn tally<A>(items: Seq<A>, f: spec_fn(A) -> int) -> int
    decreases items.len(),
{
    if items.len() == 0 {
        0
    } else {
        tally(items.drop_last(), f) + f(items.last())
    }
}

proof fn lemma_tally_remove<A>(items: Seq<A>, f: spec_fn(A) -> int, at: int)
    requires
        0 <= at < items.len(),
    ensures
        tally(items, f) == tally(items.remove(at), f) + f(items[at]),
    decreases items.len(),
{
    if at == items.len() - 1 {
        assert(items.remove(at) =~= items.drop_last());
    } else {
        lemma_tally_remove(items.drop_last(), f, at);
        assert(items.remove(at).drop_last() =~= items.drop_last().remove(at));
        assert(items.remove(at).last() == items.last());
    }
}

/// A sum does not depend on the order of its terms.
pub proof fn law_tally_ignores_order<A>(items: Seq<A>, order: Seq<usize>, f: spec_fn(A) -> int)
    requires
        is_permutation(order, items.len()),
    ensures
        tally(arranged(items, order), f) == tally(items, f),
    decreases items.len(),
{
    let n = items.len();
    if n > 0 {
        let at = lemma_permutation_hits(order, n, n - 1);
        let rest = order.remove(at);
        assert(is_permutation(rest, (n - 1) as nat)) by {
            assert forall|i: int| 0 <= i < rest.len() implies #[trigger] rest[i] < n - 1 by {
                let k = if i < at { i } else { i + 1 };
                assert(rest[i] == order[k]);
                assert(order[k] < n);
                if k < at {
                    assert(order[k] != order[at]);
                } else {
                    assert(order[at] != order[k]);
                }
            }
            assert forall|i: int, j: int| 0 <= i < j < rest.len() implies rest[i] != rest[j] by {
                let k = if i < at { i } else { i + 1 };
                let l = if j < at { j } else { j + 1 };
                assert(order[k] != order[l]);
            }
        }
        law_tally_ignores_order(items.drop_last(), rest, f);
        let all = arranged(items, order);
        lemma_tally_remove(all, f, at);
        assert(all.remove(at) =~= arranged(items.drop_last(), rest)) by {
            assert forall|i: int| 0 <= i < rest.len() implies all.remove(at)[i] == arranged(
                items.drop_last(),
                rest,
            )[i] by {
                assert(rest[i] < n - 1);
            }
        }
        assert(all[at] == items.last());
    }
}

/// The stable order lists every position once, a smaller key before a larger
/// one, and of equal keys the earlier position first.
pub proof fn law_stable_order_sorts(keys: Vec<u128>, order: Vec<usize>)
    requires
        call_ensures(stable_order, (&keys,), order),
    ensures
        order@.len() == keys@.len(),
        forall|i: int| 0 <= i < order@.len() ==> #[trigger] order@[i] < keys@.len(),
        forall|i: int, j: int| 0 <= i < j < order@.len() ==> order@[i] != order@[j],
        forall|i: int, j: int|
            0 <= i < j < order@.len() ==> keys@[#[trigger] order@[i] as int] <= keys@[
            #[trigger] order@[j] as int],
        forall|i: int, j: int|
            0 <= i < j < order@.len() && keys@[#[trigger] order@[i] as int] == keys@[
            #[trigger] order@[j] as int] ==> order@[i] < order@[j],
{
    law_stable_order_permutes(order@, keys@);
    assert forall|i: int, j: int| 0 <= i < j < order@.len() implies keys@[
        #[trigger] order@[i] as int] <= keys@[#[trigger] order@[j] as int] by {
        assert(precedes(keys@, order@[i], order@[j]));
    }
    assert forall|i: int, j: int|
        0 <= i < j < order@.len() && keys@[#[trigger] order@[i] as int] == keys@[
        #[trigger] order@[j] as int] implies order@[i] < order@[j] by {
        assert(precedes(keys@, order@[i], order@[j]));
    }
}

} // verus!
