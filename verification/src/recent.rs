//! Lists that keep only the latest of what is added to them.

use vstd::prelude::*;

verus! {

/// The last `max` items, or all where there are not so many.
pub open spec fn latest<T>(items: Seq<T>, max: int) -> Seq<T> {
    if items.len() > max {
        items.skip(items.len() - max)
    } else {
        items
    }
}

/// Adds an item; the oldest one leaves where the list would exceed `max`.
pub fn push_recent<T>(items: &mut Vec<T>, item: T, max: usize)
    requires
        old(items)@.len() <= max,
        max > 0,
    ensures
        final(items)@ == latest(old(items)@.push(item), max as int),
        final(items)@.len() <= max,
{
    let full = items.len() == max;
    items.push(item);
    if full {
        items.remove(0);
        assert(items@ =~= old(items)@.push(item).skip(1));
    }
}

/// However many items were added, the list holds the latest of them all.
pub proof fn law_list_holds_the_latest<T>(added: Seq<T>, item: T, max: int)
    requires
        max > 0,
    ensures
        latest(latest(added, max).push(item), max) == latest(added.push(item), max),
{
    assert(latest(latest(added, max).push(item), max) =~= latest(added.push(item), max));
}

/// The list ends with what was added last, in the order in which it was added, and holds everything
/// unless that is more than `max`.
pub proof fn law_the_oldest_leave_first<T>(items: Seq<T>, max: int, place: int)
    requires
        max > 0,
        0 <= place < latest(items, max).len(),
    ensures
        latest(items, max).len() <= max,
        items.len() <= max ==> latest(items, max) == items,
        items.len() > max ==> latest(items, max).len() == max,
        latest(items, max)[place] == items[items.len() - latest(items, max).len() + place],
{
}

} // verus!
