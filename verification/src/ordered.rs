//! The keys of an ordered map, in their order.

use std::collections::BTreeMap;
use vstd::prelude::*;
use vstd::std_specs::btree::increasing_seq;
use vstd::std_specs::cmp::OrdSpec;
use vstd::std_specs::iter::IteratorSpec;

verus! {

broadcast use vstd::std_specs::btree::group_btree_axioms;

/// Whether `days` lists the keys of `map`, each once, the least first.
pub open spec fn lists_keys<V>(days: Seq<i32>, map: Map<i32, V>) -> bool {
    &&& forall|i: int, j: int| 0 <= i < j < days.len() ==> days[i] < days[j]
    &&& forall|i: int| 0 <= i < days.len() ==> map.contains_key(#[trigger] days[i])
    &&& forall|day: i32| #[trigger] map.contains_key(day) ==> days.contains(day)
}

/// Lists the keys of the map in increasing order.
pub fn days_in_order<V>(map: &BTreeMap<i32, V>) -> (days: Vec<i32>)
    ensures
        lists_keys(days@, map@),
{
    let mut days: Vec<i32> = Vec::new();
    let entries = map.iter();
    let ghost all = entries.remaining();
    for entry in iter: entries
        invariant
            days@.len() == iter.index(),
            iter.seq() == all,
            forall|i: int| 0 <= i < days@.len() ==> #[trigger] days@[i] == *iter.seq()[i].0,
    {
        let (day, _) = entry;
        days.push(*day);
    }
    proof {
        let keys = all.map_values(|entry: (&i32, &V)| *entry.0);
        assert(increasing_seq(keys));
        assert forall|i: int, j: int| 0 <= i < j < days@.len() implies days@[i] < days@[j] by {
            assert(keys[i] == days@[i]);
            assert(keys[j] == days@[j]);
            assert(keys[i].cmp_spec(&keys[j]) is Less);
        }
        assert forall|i: int| 0 <= i < days@.len() implies map@.contains_key(
            #[trigger] days@[i],
        ) by {
            assert(map@.contains_key(*all[i].0));
        }
        assert forall|day: i32| #[trigger] map@.contains_key(day) implies days@.contains(day) by {
            assert(all.contains((&day, &map@[day])));
            let i = choose|i: int| 0 <= i < all.len() && all[i] == (&day, &map@[day]);
            assert(days@[i] == day);
        }
    }
    days
}

} // verus!
