//! Stable ordering of items by integer keys.

use vstd::prelude::*;
use vstd::seq_lib::*;

verus! {

/// Item `left` comes before item `right`: its key is smaller, or the keys are equal and it stands
/// first.
pub open spec fn comes_before(keys: Seq<i128>, left: usize, right: usize) -> bool {
    ||| keys[left as int] < keys[right as int]
    ||| keys[left as int] == keys[right as int] && left < right
}

/// The items of `order` stand in order.
pub open spec fn in_order(keys: Seq<i128>, order: Seq<usize>) -> bool {
    forall|i: int, j: int|
        0 <= i < j < order.len() ==> comes_before(keys, #[trigger] order[i], #[trigger] order[j])
}

/// Every entry of `order` is an item.
pub open spec fn are_items(keys: Seq<i128>, order: Seq<usize>) -> bool {
    forall|i: int| 0 <= i < order.len() ==> #[trigger] order[i] < keys.len()
}

/// `order` lists each of the items once, by ascending key and where keys are equal as they stood.
pub open spec fn stable_order(keys: Seq<i128>, order: Seq<usize>) -> bool {
    &&& order.len() == keys.len()
    &&& are_items(keys, order)
    &&& in_order(keys, order)
}

/// The items `start` to `end`, in the order in which they stand.
pub open spec fn items(start: int, end: int) -> Seq<usize> {
    Seq::new((end - start) as nat, |i: int| (start + i) as usize)
}

fn is_before(keys: &Vec<i128>, left: usize, right: usize) -> (answer: bool)
    requires
        left < keys@.len(),
        right < keys@.len(),
    ensures
        answer == comes_before(keys@, left, right),
{
    keys[left] < keys[right] || (keys[left] == keys[right] && left < right)
}

/// The two parts share no item.
spec fn apart(first: Seq<usize>, second: Seq<usize>) -> bool {
    forall|i: int, j: int|
        0 <= i < first.len() && 0 <= j < second.len() ==> #[trigger] first[i] != #[trigger] second[j]
}

fn merge(keys: &Vec<i128>, first: &Vec<usize>, second: &Vec<usize>) -> (merged: Vec<usize>)
    requires
        are_items(keys@, first@),
        are_items(keys@, second@),
        in_order(keys@, first@),
        in_order(keys@, second@),
        apart(first@, second@),
        first@.len() + second@.len() <= usize::MAX,
    ensures
        merged@.len() == first@.len() + second@.len(),
        are_items(keys@, merged@),
        in_order(keys@, merged@),
        merged@.to_multiset() == first@.to_multiset().add(second@.to_multiset()),
{
    let mut merged: Vec<usize> = Vec::new();
    let mut a: usize = 0;
    let mut b: usize = 0;
    proof {
        assert(first@.take(0) =~= Seq::<usize>::empty());
        assert(second@.take(0) =~= Seq::<usize>::empty());
        broadcast use group_to_multiset_ensures;
        assert(merged@.to_multiset() =~= first@.take(0).to_multiset().add(
            second@.take(0).to_multiset(),
        ));
    }
    while a < first.len() || b < second.len()
        invariant
            a <= first@.len(),
            b <= second@.len(),
            first@.len() + second@.len() <= usize::MAX,
            are_items(keys@, first@),
            are_items(keys@, second@),
            in_order(keys@, first@),
            in_order(keys@, second@),
            apart(first@, second@),
            merged@.len() == a + b,
            are_items(keys@, merged@),
            in_order(keys@, merged@),
            forall|i: int, j: int|
                0 <= i < merged@.len() && a <= j < first@.len() ==> comes_before(
                    keys@,
                    #[trigger] merged@[i],
                    #[trigger] first@[j],
                ),
            forall|i: int, j: int|
                0 <= i < merged@.len() && b <= j < second@.len() ==> comes_before(
                    keys@,
                    #[trigger] merged@[i],
                    #[trigger] second@[j],
                ),
            merged@.to_multiset() == first@.take(a as int).to_multiset().add(
                second@.take(b as int).to_multiset(),
            ),
        decreases first@.len() - a + second@.len() - b,
    {
        let from_first = if a == first.len() {
            false
        } else if b == second.len() {
            true
        } else {
            is_before(keys, first[a], second[b])
        };
        if from_first {
            let item: usize = first[a];
            merged.push(item);
            proof {
                assert forall|j: int| b <= j < second@.len() implies comes_before(
                    keys@,
                    item,
                    #[trigger] second@[j],
                ) by {
                    if j > b {
                        assert(comes_before(keys@, second@[b as int], second@[j]));
                    }
                }
                assert(first@.take(a + 1) =~= first@.take(a as int).push(item));
                broadcast use group_to_multiset_ensures;
                assert(merged@.to_multiset() =~= first@.take(a + 1).to_multiset().add(
                    second@.take(b as int).to_multiset(),
                ));
            }
            a = a + 1;
        } else {
            let item: usize = second[b];
            merged.push(item);
            proof {
                assert forall|j: int| a <= j < first@.len() implies comes_before(
                    keys@,
                    item,
                    #[trigger] first@[j],
                ) by {
                    assert(first@[a as int] != second@[b as int]);
                    if j > a {
                        assert(comes_before(keys@, first@[a as int], first@[j]));
                    }
                }
                assert(second@.take(b + 1) =~= second@.take(b as int).push(item));
                broadcast use group_to_multiset_ensures;
                assert(merged@.to_multiset() =~= first@.take(a as int).to_multiset().add(
                    second@.take(b + 1).to_multiset(),
                ));
            }
            b = b + 1;
        }
    }
    assert(first@.take(a as int) =~= first@);
    assert(second@.take(b as int) =~= second@);
    merged
}

fn sort_items(keys: &Vec<i128>, start: usize, end: usize) -> (order: Vec<usize>)
    requires
        start <= end <= keys@.len(),
    ensures
        order@.len() == end - start,
        are_items(keys@, order@),
        in_order(keys@, order@),
        order@.to_multiset() == items(start as int, end as int).to_multiset(),
    decreases end - start,
{
    if end - start <= 1 {
        let mut order: Vec<usize> = Vec::new();
        if start < end {
            order.push(start);
        }
        assert(order@ =~= items(start as int, end as int));
        return order;
    }
    let middle: usize = start + (end - start) / 2;
    let first = sort_items(keys, start, middle);
    let second = sort_items(keys, middle, end);
    proof {
        assert forall|i: int, j: int|
            0 <= i < first@.len() && 0 <= j < second@.len() implies #[trigger] first@[i]
            != #[trigger] second@[j] by {
            lemma_item_bounds(first@, start as int, middle as int, i);
            lemma_item_bounds(second@, middle as int, end as int, j);
        }
        assert(items(start as int, end as int) =~= items(start as int, middle as int) + items(
            middle as int,
            end as int,
        ));
        lemma_multiset_commutative(
            items(start as int, middle as int),
            items(middle as int, end as int),
        );
    }
    merge(keys, &first, &second)
}

proof fn lemma_item_bounds(order: Seq<usize>, start: int, end: int, index: int)
    requires
        0 <= start <= end <= usize::MAX,
        order.to_multiset() == items(start, end).to_multiset(),
        0 <= index < order.len(),
    ensures
        start <= order[index] < end,
{
    broadcast use group_to_multiset_ensures;

    let listed = items(start, end);
    assert(order.contains(order[index]));
    assert(order.to_multiset().contains(order[index]));
    assert(listed.to_multiset().contains(order[index]));
    assert(listed.contains(order[index]));
}

/// Sorts the items by their keys; items of equal keys stay in the order in which they stood.
pub fn sorted_order(keys: &Vec<i128>) -> (order: Vec<usize>)
    ensures
        stable_order(keys@, order@),
        order@.to_multiset() == items(0, keys@.len() as int).to_multiset(),
{
    sort_items(keys, 0, keys.len())
}

/// Sorts the items by descending keys; items of equal keys stay in the order in which they stood.
pub fn sorted_order_descending(keys: &Vec<i128>) -> (order: Vec<usize>)
    ensures
        stable_order(flipped(keys@), order@),
        order@.to_multiset() == items(0, keys@.len() as int).to_multiset(),
{
    let mut turned: Vec<i128> = Vec::new();
    let mut index: usize = 0;
    while index < keys.len()
        invariant
            index <= keys@.len(),
            turned@ == flipped(keys@.take(index as int)),
        decreases keys@.len() - index,
    {
        turned.push(-1 - keys[index]);
        index = index + 1;
        assert(turned@ =~= flipped(keys@.take(index as int)));
    }
    assert(keys@.take(index as int) =~= keys@);
    sorted_order(&turned)
}

/// The item that stands at place `rank` when the items are sorted.
pub open spec fn stands_at(keys: Seq<i128>, rank: int, item: usize) -> bool {
    exists|order: Seq<usize>|
        {
            &&& #[trigger] stable_order(keys, order)
            &&& order.to_multiset() == items(0, keys.len() as int).to_multiset()
            &&& order[rank] == item
        }
}

/// Finds the item at place `rank` of the sorted items.
pub fn item_at_rank(keys: &Vec<i128>, rank: usize) -> (item: usize)
    requires
        rank < keys@.len(),
    ensures
        item < keys@.len(),
        stands_at(keys@, rank as int, item),
{
    let order = sorted_order(keys);
    order[rank]
}

/// The keys turned round: larger where they were smaller.
pub open spec fn flipped(keys: Seq<i128>) -> Seq<i128> {
    Seq::new(keys.len(), |i: int| (-1 - keys[i]) as i128)
}

/// A stable order lists every item, and none twice.
pub proof fn law_order_lists_every_item(keys: Seq<i128>, order: Seq<usize>, item: usize)
    requires
        stable_order(keys, order),
        order.to_multiset() == items(0, keys.len() as int).to_multiset(),
        keys.len() <= usize::MAX,
        item < keys.len(),
    ensures
        order.contains(item),
        order.no_duplicates(),
{
    broadcast use group_to_multiset_ensures;

    let listed = items(0, keys.len() as int);
    assert(listed[item as int] == item);
    assert(listed.contains(item));
    assert(listed.to_multiset().contains(item));
    assert(order.to_multiset().contains(item));
    assert(order.contains(item));
    assert forall|i: int, j: int| 0 <= i < order.len() && 0 <= j < order.len() && i != j implies order[i]
        != order[j] by {
        if i < j {
            assert(comes_before(keys, order[i], order[j]));
        } else {
            assert(comes_before(keys, order[j], order[i]));
        }
    }
}

/// Keys ascend along a stable order, and items of equal keys keep their order.
pub proof fn law_keys_ascend_along_a_stable_order(
    keys: Seq<i128>,
    order: Seq<usize>,
    first: int,
    second: int,
)
    requires
        stable_order(keys, order),
        0 <= first < second < order.len(),
    ensures
        keys[order[first] as int] <= keys[order[second] as int],
        keys[order[first] as int] == keys[order[second] as int] ==> order[first] < order[second],
{
    assert(comes_before(keys, order[first], order[second]));
}

/// Keys that are turned round compare the other way.
pub proof fn law_flipped_keys_compare_the_other_way(keys: Seq<i128>, first: int, second: int)
    requires
        0 <= first < keys.len(),
        0 <= second < keys.len(),
    ensures
        flipped(keys).len() == keys.len(),
        flipped(keys)[first] < flipped(keys)[second] <==> keys[second] < keys[first],
        flipped(keys)[first] == flipped(keys)[second] <==> keys[first] == keys[second],
{
}

/// As many items stand before the one at a place as the place says, none of them with a larger key,
/// and no other item has a smaller key. So the first has the smallest key and the last the largest.
#[verifier::spinoff_prover]
pub proof fn law_places_divide_the_items(keys: Seq<i128>, rank: int, item: usize) -> (lower: Seq<
    usize,
>)
    requires
        keys.len() <= usize::MAX,
        0 <= rank < keys.len(),
        stands_at(keys, rank, item),
    ensures
        item < keys.len(),
        lower.len() == rank,
        lower.no_duplicates(),
        forall|i: int|
            0 <= i < lower.len() ==> #[trigger] lower[i] < keys.len() && keys[lower[i] as int]
                <= keys[item as int],
        forall|other: usize|
            other < keys.len() && !lower.contains(other) ==> #[trigger] keys[other as int]
                >= keys[item as int],
        rank == 0 ==> forall|i: int| 0 <= i < keys.len() ==> keys[item as int] <= #[trigger] keys[i],
        rank == keys.len() - 1 ==> forall|i: int|
            0 <= i < keys.len() ==> #[trigger] keys[i] <= keys[item as int],
{
    let order = choose|order: Seq<usize>|
        {
            &&& #[trigger] stable_order(keys, order)
            &&& order.to_multiset() == items(0, keys.len() as int).to_multiset()
            &&& order[rank] == item
        };
    let lower = order.take(rank);
    law_order_lists_every_item(keys, order, order[rank]);
    assert forall|i: int| 0 <= i < lower.len() implies #[trigger] lower[i] < keys.len()
        && keys[lower[i] as int] <= keys[item as int] by {
        assert(lower[i] == order[i]);
        law_keys_ascend_along_a_stable_order(keys, order, i, rank);
    }
    assert forall|other: usize|
        other < keys.len() implies #[trigger] keys[other as int] >= keys[item as int]
        || lower.contains(other) by {
        law_order_lists_every_item(keys, order, other);
        let place = choose|i: int| 0 <= i < order.len() && order[i] == other;
        if place < rank {
            assert(lower[place] == other);
        } else if place > rank {
            law_keys_ascend_along_a_stable_order(keys, order, rank, place);
        }
    }
    if rank == 0 {
        assert forall|i: int| 0 <= i < keys.len() implies keys[item as int]
            <= #[trigger] keys[i] by {
            let other = i as usize;
            assert(keys[other as int] >= keys[item as int] || lower.contains(other));
        }
    }
    if rank == keys.len() - 1 {
        assert forall|i: int| 0 <= i < keys.len() implies #[trigger] keys[i]
            <= keys[item as int] by {
            law_order_lists_every_item(keys, order, i as usize);
            let place = choose|k: int| 0 <= k < order.len() && order[k] == i as usize;
            if place < rank {
                law_keys_ascend_along_a_stable_order(keys, order, place, rank);
            }
        }
    }
    lower
}

} // verus!
