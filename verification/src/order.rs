//! The order in which items come out when they are sorted by an unsigned key,
//! largest first, with equal keys left in the order in which they came.

use vstd::prelude::*;

verus! {

/// The number of entries at the start of `order` whose keys are not below `k`:
/// the place at which an item with key `k` that came later goes in.
pub open spec fn slot(keys: Seq<u64>, order: Seq<int>, k: u64) -> nat
    decreases order.len(),
{
    if order.len() > 0 && keys[order[0]] >= k {
        1 + slot(keys, order.drop_first(), k)
    } else {
        0
    }
}

/// The positions of `keys`, ordered by key from the largest down; positions of
/// equal keys stay in rising order.
pub open spec fn descending(keys: Seq<u64>) -> Seq<int>
    decreases keys.len(),
{
    if keys.len() == 0 {
        Seq::empty()
    } else {
        let rest = descending(keys.drop_last());
        let last = keys.len() - 1;
        rest.insert(slot(keys, rest, keys[last]) as int, last)
    }
}

/// `order` lists positions of `keys` by key from the largest down, equal keys
/// by rising position.
pub open spec fn is_descending(keys: Seq<u64>, order: Seq<int>) -> bool {
    &&& forall|i: int| 0 <= i < order.len() ==> 0 <= #[trigger] order[i] < keys.len()
    &&& forall|i: int, j: int|
        0 <= i < j < order.len() ==> keys[#[trigger] order[i]] > keys[#[trigger] order[j]] || (
        keys[order[i]] == keys[order[j]] && order[i] < order[j])
}

/// The positions in `v`, as mathematical integers.
pub open spec fn positions(v: Seq<usize>) -> Seq<int> {
    Seq::new(v.len(), |i: int| v[i] as int)
}

proof fn lemma_slot(keys: Seq<u64>, order: Seq<int>, k: u64)
    ensures
        slot(keys, order, k) <= order.len(),
        forall|i: int| 0 <= i < slot(keys, order, k) ==> keys[#[trigger] order[i]] >= k,
        slot(keys, order, k) < order.len() ==> keys[order[slot(keys, order, k) as int]] < k,
    decreases order.len(),
{
    if order.len() > 0 && keys[order[0]] >= k {
        let t = order.drop_first();
        lemma_slot(keys, t, k);
        assert forall|i: int| 0 <= i < slot(keys, order, k) implies keys[#[trigger] order[i]]
            >= k by {
            if i > 0 {
                assert(order[i] == t[i - 1]);
            }
        }
        if slot(keys, order, k) < order.len() {
            assert(order[slot(keys, order, k) as int] == t[slot(keys, t, k) as int]);
        }
    }
}

proof fn lemma_slot_is(keys: Seq<u64>, order: Seq<int>, k: u64, n: int)
    requires
        0 <= n <= order.len(),
        forall|i: int| 0 <= i < n ==> keys[#[trigger] order[i]] >= k,
        n < order.len() ==> keys[order[n]] < k,
    ensures
        slot(keys, order, k) == n,
    decreases order.len(),
{
    if n > 0 {
        let t = order.drop_first();
        assert forall|i: int| 0 <= i < n - 1 implies keys[#[trigger] t[i]] >= k by {
            assert(t[i] == order[i + 1]);
        }
        lemma_slot_is(keys, t, k, n - 1);
    }
}

/// `descending` lists every position once, the larger key first and, of equal
/// keys, the one that came first.
pub proof fn lemma_descending(keys: Seq<u64>)
    ensures
        descending(keys).len() == keys.len(),
        is_descending(keys, descending(keys)),
        forall|p: int| 0 <= p < keys.len() ==> descending(keys).contains(p),
    decreases keys.len(),
{
    if keys.len() > 0 {
        let front = keys.drop_last();
        let rest = descending(front);
        let last = keys.len() - 1;
        let k = keys[last];
        let at = slot(keys, rest, k) as int;
        let order = descending(keys);
        lemma_descending(front);
        lemma_slot(keys, rest, k);
        assert(order == rest.insert(at, last));
        assert forall|i: int| 0 <= i < rest.len() implies keys[#[trigger] rest[i]] == front[rest[i]] by {}
        assert forall|i: int| at <= i < rest.len() implies keys[#[trigger] rest[i]] < k by {
            if i > at {
                assert(front[rest[at]] > front[rest[i]] || front[rest[at]] == front[rest[i]]);
            }
        }
        assert forall|i: int, j: int| 0 <= i < j < order.len() implies keys[#[trigger] order[i]]
            > keys[#[trigger] order[j]] || (keys[order[i]] == keys[order[j]] && order[i]
            < order[j]) by {
            if i == at {
                assert(order[j] == rest[j - 1]);
            } else if j == at {
                assert(order[i] == rest[i]);
            } else {
                let a = if i < at {
                    i
                } else {
                    i - 1
                };
                let b = if j < at {
                    j
                } else {
                    j - 1
                };
                assert(order[i] == rest[a]);
                assert(order[j] == rest[b]);
                assert(front[rest[a]] > front[rest[b]] || (front[rest[a]] == front[rest[b]]
                    && rest[a] < rest[b]));
            }
        }
        assert forall|i: int| 0 <= i < order.len() implies 0 <= #[trigger] order[i]
            < keys.len() by {
            if i < at {
                assert(order[i] == rest[i]);
            } else if i > at {
                assert(order[i] == rest[i - 1]);
            }
        }
        assert forall|p: int| 0 <= p < keys.len() implies order.contains(p) by {
            if p == last {
                assert(order[at] == last);
            } else {
                assert(rest.contains(p));
                let i = choose|i: int| 0 <= i < rest.len() && rest[i] == p;
                if i < at {
                    assert(order[i] == p);
                } else {
                    assert(order[i + 1] == p);
                }
            }
        }
    }
}

/// Computes the order in which items with the keys `keys` come out when the
/// largest key goes first and equal keys keep their places.
pub fn descending_order(keys: &Vec<u64>) -> (order: Vec<usize>)
    ensures
        positions(order@) == descending(keys@),
        order@.len() == keys@.len(),
        forall|i: int| 0 <= i < order@.len() ==> #[trigger] order@[i] < keys@.len(),
{
    let mut order: Vec<usize> = Vec::new();
    let mut i: usize = 0;
    assert(keys@.take(0) =~= Seq::<u64>::empty());
    assert(positions(order@) =~= Seq::<int>::empty());
    while i < keys.len()
        invariant
            i <= keys@.len(),
            order@.len() == i,
            positions(order@) == descending(keys@.take(i as int)),
            forall|j: int| 0 <= j < order@.len() ==> #[trigger] order@[j] < i,
        decreases keys@.len() - i,
    {
        let k = keys[i];
        let mut at: usize = 0;
        while at < order.len() && keys[order[at]] >= k
            invariant
                at <= order@.len(),
                order@.len() == i,
                i < keys@.len(),
                forall|j: int| 0 <= j < order@.len() ==> #[trigger] order@[j] < i,
                forall|j: int| 0 <= j < at ==> keys@[#[trigger] order@[j] as int] >= k,
            decreases order@.len() - at,
        {
            at += 1;
        }
        let ghost before = positions(order@);
        let ghost now = keys@.take(i + 1);
        proof {
            assert(now.drop_last() =~= keys@.take(i as int));
            assert(now[now.len() - 1] == k);
            assert forall|j: int| 0 <= j < at implies now[#[trigger] before[j]] >= k by {
                assert(before[j] == order@[j] as int);
            }
            if at < before.len() {
                assert(before[at as int] == order@[at as int] as int);
            }
            lemma_slot_is(now, before, k, at as int);
        }
        order.insert(at, i);
        proof {
            assert(positions(order@) =~= before.insert(at as int, i as int));
        }
        i += 1;
    }
    proof {
        assert(keys@.take(keys@.len() as int) =~= keys@);
    }
    order
}

} // verus!
