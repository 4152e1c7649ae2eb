//! Putting tracks in random order.

use vstd::prelude::*;

use crate::jellyfin::models;
use crate::jellyfin::models::Item;
use crate::order;
use crate::order::order_of;
use crate::random::random_key;

verus! {

/// The items in ascending order of their keys, those with equal keys as they stand.
pub fn sort_by_keys(items: &Vec<Item>, keys: &Vec<u128>) -> (r: Vec<Item>)
    requires
        items@.len() == keys@.len(),
    ensures
        exists|order: Seq<int>|
            {
                &&& #[trigger] order::is_order(order, keys@)
                &&& models::item_views(r@) == order::arranged(models::item_views(items@), order)
            },
{
    let order = order_of(keys);
    let ghost all = models::item_views(items@);
    let ghost want = order::arranged(all, order::positions(order@));
    let mut r: Vec<Item> = Vec::new();
    let mut i: usize = 0;
    assert(models::item_views(r@) =~= want.take(0));
    while i < order.len()
        invariant
            i <= order.len(),
            items@.len() == keys@.len(),
            order@.len() == keys@.len(),
            order::is_order(order::positions(order@), keys@),
            all == models::item_views(items@),
            want == order::arranged(all, order::positions(order@)),
            models::item_views(r@) == want.take(i as int),
        decreases order.len() - i,
    {
        proof {
            assert(order::positions(order@)[i as int] == order@[i as int]);
        }
        let ghost before = models::item_views(r@);
        r.push(items[order[i]].clone());
        i += 1;
        proof {
            assert(models::item_views(r@) =~= before.push(want[i - 1]));
            assert(want.take(i as int) =~= want.take(i - 1).push(want[i - 1]));
        }
    }
    assert(want.take(i as int) =~= want);
    r
}

/// The items in random order: each is given a random key, and they are sorted by it.
pub fn shuffle(items: &Vec<Item>) -> (r: Vec<Item>)
    ensures
        exists|order: Seq<int>|
            {
                &&& #[trigger] order::is_permutation(order, items@.len())
                &&& models::item_views(r@) == order::arranged(models::item_views(items@), order)
            },
{
    let mut keys: Vec<u128> = Vec::new();
    while keys.len() < items.len()
        invariant
            keys@.len() <= items@.len(),
        decreases items.len() - keys.len(),
    {
        keys.push(random_key());
    }
    let r = sort_by_keys(items, &keys);
    proof {
        let order = choose|order: Seq<int>|
            #[trigger] order::is_order(order, keys@) && models::item_views(r@) == order::arranged(
                models::item_views(items@),
                order,
            );
        assert(order::is_permutation(order, items@.len()));
    }
    r
}

} // verus!
