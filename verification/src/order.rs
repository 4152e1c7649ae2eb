//! Putting things in order by keys.

use vstd::prelude::*;

verus! {

/// Whether `order` names each position below `n` once.
pub open spec fn is_permutation(order: Seq<int>, n: nat) -> bool {
    &&& order.len() == n
    &&& forall|i: int| 0 <= i < n ==> 0 <= #[trigger] order[i] < n
    &&& forall|i: int, j: int| 0 <= i < j < n ==> order[i] != order[j]
}

/// Whether position `a` comes before position `b` when positions are ordered by their keys, those
/// with equal keys as they stand.
pub open spec fn precedes(keys: Seq<u128>, a: int, b: int) -> bool {
    keys[a] < keys[b] || (keys[a] == keys[b] && a < b)
}

/// Whether `order` lists the positions of `keys` in ascending order of their keys.
pub open spec fn is_order(order: Seq<int>, keys: Seq<u128>) -> bool {
    &&& is_permutation(order, keys.len())
    &&& forall|i: int, j: int|
        0 <= i < j < keys.len() ==> precedes(keys, #[trigger] order[i], #[trigger] order[j])
}

/// The items at the positions that `order` names.
pub open spec fn arranged<A>(items: Seq<A>, order: Seq<int>) -> Seq<A> {
    order.map_values(|i: int| items[i])
}

/// The positions of a list of machine integers.
pub open spec fn positions(v: Seq<usize>) -> Seq<int> {
    v.map_values(|i: usize| i as int)
}

/// The positions of `keys` in ascending order of their keys, those with equal keys as they
/// stand.
pub fn order_of(keys: &Vec<u128>) -> (r: Vec<usize>)
    ensures
        is_order(positions(r@), keys@),
{
    let mut r: Vec<usize> = Vec::new();
    let mut n: usize = 0;
    while n < keys.len()
        invariant
            n <= keys.len(),
            is_order(positions(r@), keys@.take(n as int)),
        decreases keys.len() - n,
    {
        let ghost was = positions(r@);
        let ghost known = keys@.take(n as int);
        assert forall|i: int| 0 <= i < n implies #[trigger] r@[i] < n && was[i] == r@[i] by {
            assert(was[i] == r@[i] as int);
        }
        let mut at: usize = r.len();
        while at > 0 && keys[r[at - 1]] > keys[n]
            invariant
                at <= r.len(),
                n < keys.len(),
                r.len() == n,
                was == positions(r@),
                known == keys@.take(n as int),
                is_order(was, known),
                forall|i: int| 0 <= i < n ==> #[trigger] r@[i] < n && was[i] == r@[i],
                forall|i: int| at <= i < n ==> keys@[#[trigger] was[i]] > keys@[n as int],
            decreases at,
        {
            at -= 1;
        }
        r.insert(at, n);
        n += 1;
        proof {
            let now = positions(r@);
            let all = keys@.take(n as int);
            assert(now =~= was.insert(at as int, n - 1));
            assert forall|i: int| 0 <= i < n implies 0 <= #[trigger] now[i] < n by {
                if i < at {
                    assert(now[i] == was[i]);
                } else if i > at {
                    assert(now[i] == was[i - 1]);
                }
            }
            assert forall|i: int, j: int| 0 <= i < j < n implies precedes(
                all,
                #[trigger] now[i],
                #[trigger] now[j],
            ) && now[i] != now[j] by {
                let a = if i < at {
                    i
                } else {
                    i - 1
                };
                let b = if j < at {
                    j
                } else {
                    j - 1
                };
                if i == at {
                    assert(now[j] == was[b]);
                    assert(was[b] < n - 1);
                } else if j == at {
                    assert(now[i] == was[a]);
                    assert(was[a] < n - 1);
                    if a < at - 1 {
                        assert(precedes(known, was[a], was[at - 1]));
                    }
                    assert(keys@[was[at - 1]] <= keys@[n - 1]);
                } else {
                    assert(now[i] == was[a]);
                    assert(now[j] == was[b]);
                    assert(precedes(known, was[a], was[b]));
                }
            }
        }
    }
    assert(keys@.take(n as int) =~= keys@);
    r
}

/// Where a permutation names position `v`.
proof fn lemma_permutation_is_onto(order: Seq<int>, n: nat, v: int)
    requires
        is_permutation(order, n),
        0 <= v < n,
    ensures
        order.contains(v),
{
    if !order.contains(v) {
        let seen = order.to_set();
        let open = vstd::set_lib::set_int_range(0, n as int).remove(v);
        vstd::set_lib::lemma_int_range(0, n as int);
        order.unique_seq_to_set();
        assert(seen.subset_of(open));
        vstd::set_lib::lemma_len_subset(seen, open);
    }
}

/// Without the last item, an order is an order of the others.
pub proof fn lemma_without_last<A>(items: Seq<A>, order: Seq<int>)
    requires
        items.len() > 0,
        is_permutation(order, items.len()),
    ensures
        ({
            let at = order.index_of(items.len() - 1);
            &&& 0 <= at < order.len()
            &&& order[at] == items.len() - 1
            &&& is_permutation(order.remove(at), (items.len() - 1) as nat)
            &&& arranged(items.drop_last(), order.remove(at)) == arranged(items, order).remove(at)
        }),
{
    let n = items.len();
    let last = n - 1;
    lemma_permutation_is_onto(order, n, last);
    let at = order.index_of(last);
    let fewer = order.remove(at);
    assert forall|i: int| 0 <= i < n - 1 implies 0 <= #[trigger] fewer[i] < n - 1 by {
        let j = if i < at {
            i
        } else {
            i + 1
        };
        assert(fewer[i] == order[j]);
        assert(order[j] != order[at]);
    }
    assert(arranged(items.drop_last(), fewer) =~= arranged(items, order).remove(at));
}

/// Putting items in another order keeps every one of them.
pub proof fn lemma_arranged_keeps_items<A>(items: Seq<A>, order: Seq<int>)
    requires
        is_permutation(order, items.len()),
    ensures
        arranged(items, order).to_multiset() == items.to_multiset(),
    decreases items.len(),
{
    broadcast use vstd::seq_lib::group_to_multiset_ensures;

    let n = items.len();
    if n == 0 {
        assert(arranged(items, order) =~= items);
    } else {
        let last = n - 1;
        let at = order.index_of(last);
        let rest = items.drop_last();
        lemma_without_last(items, order);
        lemma_arranged_keeps_items(rest, order.remove(at));
        assert(arranged(items, order)[at] == items[last]);
        assert(items =~= rest.push(items[last]));
        assert(arranged(items, order).to_multiset() =~= items.to_multiset());
    }
}

/// An order lists every position once, and what it lists ascends; of equal keys the one that
/// stands first is listed first.
pub proof fn law_an_order_ascends(order: Seq<int>, keys: Seq<u128>)
    requires
        is_order(order, keys),
    ensures
        arranged(keys, order).len() == keys.len(),
        arranged(keys, order).to_multiset() == keys.to_multiset(),
        forall|i: int, j: int|
            0 <= i < j < keys.len() ==> (#[trigger] arranged(keys, order)[i]) <= (
            #[trigger] arranged(keys, order)[j]),
        forall|i: int, j: int|
            0 <= i < j < keys.len() && keys[order[i]] == keys[order[j]] ==> (#[trigger] order[i]) < (
            #[trigger] order[j]),
{
    lemma_arranged_keeps_items(keys, order);
    assert forall|i: int, j: int| 0 <= i < j < keys.len() implies (#[trigger] arranged(
        keys,
        order,
    )[i]) <= (#[trigger] arranged(keys, order)[j]) by {
        assert(precedes(keys, order[i], order[j]));
    }
}

} // verus!
