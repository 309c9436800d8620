//! Counting the positions at which a property holds.

use vstd::prelude::*;

verus! {

/// How many of the positions below `end` have the property.
pub open spec fn tally(end: int, holds: spec_fn(int) -> bool) -> int
    decreases end,
{
    if end <= 0 {
        0
    } else {
        tally(end - 1, holds) + (if holds(end - 1) {
            1int
        } else {
            0int
        })
    }
}

/// A count lies between zero and the number of positions.
pub proof fn lemma_tally_bounds(end: int, holds: spec_fn(int) -> bool)
    requires
        end >= 0,
    ensures
        0 <= tally(end, holds) <= end,
    decreases end,
{
    if end > 0 {
        lemma_tally_bounds(end - 1, holds);
    }
}

/// Positions without the property do not count.
pub proof fn lemma_tally_skip(start: int, end: int, holds: spec_fn(int) -> bool)
    requires
        0 <= start <= end,
        forall|i: int| start <= i < end ==> !(#[trigger] holds(i)),
    ensures
        tally(end, holds) == tally(start, holds),
    decreases end - start,
{
    if start < end {
        lemma_tally_skip(start, end - 1, holds);
    }
}

/// Properties that agree below `end` hold equally often.
pub proof fn lemma_tally_agree(
    end: int,
    first: spec_fn(int) -> bool,
    second: spec_fn(int) -> bool,
)
    requires
        forall|i: int| 0 <= i < end ==> #[trigger] first(i) == second(i),
    ensures
        tally(end, first) == tally(end, second),
    decreases end,
{
    if end > 0 {
        lemma_tally_agree(end - 1, first, second);
    }
}

/// A property that splits into two exclusive ones holds as often as both together.
pub proof fn lemma_tally_split(
    end: int,
    whole: spec_fn(int) -> bool,
    first: spec_fn(int) -> bool,
    second: spec_fn(int) -> bool,
)
    requires
        forall|i: int| 0 <= i < end ==> #[trigger] whole(i) == (first(i) || second(i)),
        forall|i: int| 0 <= i < end ==> !(#[trigger] first(i) && second(i)),
    ensures
        tally(end, whole) == tally(end, first) + tally(end, second),
    decreases end,
{
    if end > 0 {
        lemma_tally_split(end - 1, whole, first, second);
        assert(whole(end - 1) == (first(end - 1) || second(end - 1)));
    }
}

/// Where the property holds at some position, the count is positive.
pub proof fn lemma_tally_positive(end: int, holds: spec_fn(int) -> bool, witness: int)
    requires
        0 <= witness < end,
        holds(witness),
    ensures
        tally(end, holds) > 0,
    decreases end,
{
    lemma_tally_bounds(end - 1, holds);
    if witness < end - 1 {
        lemma_tally_positive(end - 1, holds, witness);
    }
}

/// A property that holds at one position only is counted once.
pub proof fn lemma_tally_single(end: int, holds: spec_fn(int) -> bool, place: int)
    requires
        0 <= place < end,
        holds(place),
        forall|i: int| 0 <= i < end && i != place ==> !(#[trigger] holds(i)),
    ensures
        tally(end, holds) == 1,
    decreases end,
{
    if place < end - 1 {
        lemma_tally_single(end - 1, holds, place);
    } else {
        lemma_tally_skip(0, end - 1, holds);
    }
}

/// The sum of a list of numbers.
pub open spec fn sum_of(values: Seq<usize>) -> int
    decreases values.len(),
{
    if values.len() == 0 {
        0
    } else {
        sum_of(values.drop_last()) + values.last()
    }
}

proof fn lemma_sum_of_prefix(values: Seq<usize>, length: int)
    requires
        0 <= length <= values.len(),
    ensures
        0 <= sum_of(values.take(length)) <= sum_of(values),
    decreases values.len(),
{
    if length < values.len() {
        assert(values.drop_last().take(length) =~= values.take(length));
        lemma_sum_of_prefix(values.drop_last(), length);
    } else {
        assert(values.take(length) =~= values);
        if values.len() > 0 {
            lemma_sum_of_prefix(values.drop_last(), values.len() - 1);
        }
    }
}

/// Adds up a list of numbers.
pub fn total(values: &Vec<usize>) -> (sum: usize)
    requires
        sum_of(values@) <= usize::MAX,
    ensures
        sum == sum_of(values@),
{
    let mut sum: usize = 0;
    let mut index: usize = 0;
    assert(values@.take(0) =~= Seq::<usize>::empty());
    while index < values.len()
        invariant
            index <= values@.len(),
            sum_of(values@) <= usize::MAX,
            sum == sum_of(values@.take(index as int)),
        decreases values@.len() - index,
    {
        proof {
            assert(values@.take(index + 1).drop_last() =~= values@.take(index as int));
            lemma_sum_of_prefix(values@, index + 1);
        }
        sum = sum + values[index];
        index = index + 1;
    }
    assert(values@.take(index as int) =~= values@);
    sum
}

/// A count is the size of the set of the positions that have the property.
pub proof fn law_tally_is_the_number_of_positions(end: int, holds: spec_fn(int) -> bool)
    requires
        end >= 0,
    ensures
        Set::new(|i: int| 0 <= i < end && holds(i)).finite(),
        tally(end, holds) == Set::new(|i: int| 0 <= i < end && holds(i)).len(),
    decreases end,
{
    let all = Set::new(|i: int| 0 <= i < end && holds(i));
    if end == 0 {
        assert(all =~= Set::<int>::empty());
    } else {
        law_tally_is_the_number_of_positions(end - 1, holds);
        let before = Set::new(|i: int| 0 <= i < end - 1 && holds(i));
        if holds(end - 1) {
            assert(all =~= before.insert(end - 1));
        } else {
            assert(all =~= before);
        }
    }
}

/// The sum of a list is that of its parts, and a single value is its own sum.
pub proof fn law_sums_add_up(first: Seq<usize>, second: Seq<usize>, value: usize)
    ensures
        sum_of(Seq::empty()) == 0,
        sum_of(seq![value]) == value,
        sum_of(first + second) == sum_of(first) + sum_of(second),
    decreases second.len(),
{
    assert(seq![value].drop_last() =~= Seq::<usize>::empty());
    if second.len() == 0 {
        assert(first + second =~= first);
    } else {
        law_sums_add_up(first, second.drop_last(), value);
        assert((first + second).drop_last() =~= first + second.drop_last());
        assert((first + second).last() == second.last());
    }
    reveal_with_fuel(sum_of, 2);
}

} // verus!
