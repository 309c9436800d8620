//! Cutting a list of rows into batches.

use vstd::arithmetic::div_mod::lemma_fundamental_div_mod;
use vstd::arithmetic::mul::{lemma_mul_inequality, lemma_mul_is_commutative};
use vstd::prelude::*;

verus! {

/// The smaller of two numbers.
pub open spec fn min_of(left: int, right: int) -> int {
    if left < right {
        left
    } else {
        right
    }
}

/// How many batches of `batch_size` it takes to hold `rows` rows.
pub open spec fn batches_for(rows: int, batch_size: int) -> int {
    if rows % batch_size == 0 {
        rows / batch_size
    } else {
        rows / batch_size + 1
    }
}

/// The rows of batch `index`: full batches first, the last one as long as the rows reach.
pub open spec fn batch_of<T>(rows: Seq<T>, index: int, batch_size: int) -> Seq<T> {
    rows.subrange(index * batch_size, min_of(index * batch_size + batch_size, rows.len() as int))
}

/// The first `count` batches, one behind the other.
pub open spec fn first_batches<T>(rows: Seq<T>, count: int, batch_size: int) -> Seq<T>
    decreases count,
{
    if count <= 0 {
        Seq::empty()
    } else {
        first_batches(rows, count - 1, batch_size) + batch_of(rows, count - 1, batch_size)
    }
}

/// Counts the batches that hold all rows, a partial last one included.
pub fn batch_count(rows: usize, batch_size: usize) -> (count: usize)
    requires
        batch_size > 0,
    ensures
        count == batches_for(rows as int, batch_size as int),
{
    let full: usize = rows / batch_size;
    if rows % batch_size == 0 {
        full
    } else {
        proof {
            lemma_fundamental_div_mod(rows as int, batch_size as int);
            assert(full * batch_size >= full) by (nonlinear_arith)
                requires
                    batch_size > 0,
                    full >= 0,
            ;
            lemma_mul_is_commutative(full as int, batch_size as int);
        }
        full + 1
    }
}

/// The rows of one batch.
pub fn batch_rows(rows: &[usize], batch_index: usize, batch_size: usize) -> (batch: &[usize])
    requires
        batch_index * batch_size <= rows@.len(),
    ensures
        batch@ == batch_of(rows@, batch_index as int, batch_size as int),
{
    let total: usize = rows.len();
    let start: usize = batch_index * batch_size;
    let end: usize = if batch_size > total - start {
        total
    } else {
        start + batch_size
    };
    vstd::slice::slice_subrange(rows, start, end)
}

/// How many batches a pass takes that stops after `max_batches`; zero means no limit.
pub open spec fn limited_batches(rows: int, batch_size: int, max_batches: int) -> int {
    let all = batches_for(rows, batch_size);
    if max_batches == 0 {
        all
    } else {
        min_of(max_batches, all)
    }
}

/// The batches of a pass, at most `max_batches` of them unless that is zero.
pub fn limited_chunks(rows: &[usize], batch_size: usize, max_batches: usize) -> (chunks: Vec<
    &[usize],
>)
    requires
        batch_size > 0,
    ensures
        chunks@.len() == limited_batches(
            rows@.len() as int,
            batch_size as int,
            max_batches as int,
        ),
        forall|i: int|
            0 <= i < chunks@.len() ==> (#[trigger] chunks@[i])@ == batch_of(
                rows@,
                i,
                batch_size as int,
            ),
{
    let all: usize = batch_count(rows.len(), batch_size);
    let count: usize = if max_batches == 0 || all <= max_batches {
        all
    } else {
        max_batches
    };
    let mut chunks: Vec<&[usize]> = Vec::new();
    let mut index: usize = 0;
    while index < count
        invariant
            batch_size > 0,
            index == chunks@.len(),
            index <= count <= batches_for(rows@.len() as int, batch_size as int),
            forall|i: int|
                0 <= i < chunks@.len() ==> (#[trigger] chunks@[i])@ == batch_of(
                    rows@,
                    i,
                    batch_size as int,
                ),
        decreases count - index,
    {
        proof {
            law_batches_are_filled(rows@.len() as int, index as int, batch_size as int);
        }
        chunks.push(batch_rows(rows, index, batch_size));
        index = index + 1;
    }
    chunks
}

/// The batch count is the least number of batches that reach the last row.
pub proof fn law_batches_reach_all_rows(rows: int, batch_size: int)
    requires
        rows >= 0,
        batch_size > 0,
    ensures
        batches_for(rows, batch_size) * batch_size >= rows,
        rows > 0 ==> (batches_for(rows, batch_size) - 1) * batch_size < rows,
        rows == 0 ==> batches_for(rows, batch_size) == 0,
{
    lemma_fundamental_div_mod(rows, batch_size);
    let full = rows / batch_size;
    lemma_mul_is_commutative(batch_size, full);
    assert((full + 1) * batch_size == full * batch_size + batch_size) by (nonlinear_arith);
    assert((full - 1) * batch_size == full * batch_size - batch_size) by (nonlinear_arith);
    if rows == 0 {
        assert(full == 0) by (nonlinear_arith)
            requires
                full * batch_size + rows % batch_size == 0,
                batch_size > 0,
                0 <= rows % batch_size,
                full == rows / batch_size,
                rows == 0,
        ;
    }
}

/// A batch of an index below the count holds at least one row and at most `batch_size`.
pub proof fn law_batches_are_filled(rows: int, index: int, batch_size: int)
    requires
        rows >= 0,
        batch_size > 0,
        0 <= index < batches_for(rows, batch_size),
    ensures
        0 <= index * batch_size < rows,
        index + 1 < batches_for(rows, batch_size) ==> index * batch_size + batch_size <= rows,
{
    law_batches_reach_all_rows(rows, batch_size);
    let count = batches_for(rows, batch_size);
    assert(0 <= index * batch_size) by (nonlinear_arith)
        requires
            index >= 0,
            batch_size > 0,
    ;
    lemma_mul_inequality(index, count - 1, batch_size);
    if index + 1 < count {
        lemma_mul_inequality(index + 1, count - 1, batch_size);
        assert((index + 1) * batch_size == index * batch_size + batch_size) by (nonlinear_arith);
    }
}

proof fn lemma_first_batches<T>(rows: Seq<T>, count: int, batch_size: int)
    requires
        batch_size > 0,
        0 <= count <= batches_for(rows.len() as int, batch_size),
    ensures
        first_batches(rows, count, batch_size) == rows.take(
            min_of(count * batch_size, rows.len() as int),
        ),
    decreases count,
{
    if count > 0 {
        lemma_first_batches(rows, count - 1, batch_size);
        law_batches_are_filled(rows.len() as int, count - 1, batch_size);
        assert(count * batch_size == (count - 1) * batch_size + batch_size) by (nonlinear_arith);
        assert(first_batches(rows, count, batch_size) =~= rows.take(
            min_of(count * batch_size, rows.len() as int),
        ));
    } else {
        assert(count * batch_size == 0) by (nonlinear_arith)
            requires
                count == 0,
        ;
        assert(first_batches(rows, count, batch_size) =~= rows.take(0));
    }
}

/// The batches of one pass, put together, are the rows: nothing is lost, repeated or moved,
/// and the partial final batch is retained.
pub proof fn law_batches_partition_rows<T>(rows: Seq<T>, batch_size: int)
    requires
        batch_size > 0,
    ensures
        first_batches(rows, batches_for(rows.len() as int, batch_size), batch_size) == rows,
{
    let count = batches_for(rows.len() as int, batch_size);
    law_batches_reach_all_rows(rows.len() as int, batch_size);
    assert(count >= 0) by (nonlinear_arith)
        requires
            count * batch_size >= rows.len(),
            batch_size > 0,
    ;
    lemma_first_batches(rows, count, batch_size);
    assert(rows.take(rows.len() as int) =~= rows);
}

/// Row number `place` of a batch is the row that stands as many places behind the batch's first one,
/// and a batch ends with its size or with the rows.
pub proof fn law_batches_keep_the_order_of_rows<T>(
    rows: Seq<T>,
    index: int,
    batch_size: int,
    place: int,
)
    requires
        batch_size > 0,
        0 <= index < batches_for(rows.len() as int, batch_size),
        0 <= place < batch_of(rows, index, batch_size).len(),
    ensures
        batch_of(rows, index, batch_size)[place] == rows[index * batch_size + place],
        batch_of(rows, index, batch_size).len() <= batch_size,
        batch_of(rows, index, batch_size).len() == batch_size || index * batch_size + batch_of(
            rows,
            index,
            batch_size,
        ).len() == rows.len(),
{
    law_batches_are_filled(rows.len() as int, index, batch_size);
}

/// A limited pass takes every batch where no limit is set or the limit is not reached, and as many as
/// the limit where it is.
pub proof fn law_limits_cut_a_pass_short(rows: int, batch_size: int, max_batches: int)
    requires
        rows >= 0,
        batch_size > 0,
        max_batches >= 0,
    ensures
        limited_batches(rows, batch_size, 0) == batches_for(rows, batch_size),
        limited_batches(rows, batch_size, max_batches) <= batches_for(rows, batch_size),
        max_batches > 0 ==> limited_batches(rows, batch_size, max_batches) <= max_batches,
        limited_batches(rows, batch_size, max_batches) == max_batches || limited_batches(
            rows,
            batch_size,
            max_batches,
        ) * batch_size >= rows,
{
    law_batches_reach_all_rows(rows, batch_size);
}

/// The smaller of two numbers exceeds neither and is one of them.
pub proof fn law_the_smaller_exceeds_neither(left: int, right: int)
    ensures
        min_of(left, right) <= left,
        min_of(left, right) <= right,
        min_of(left, right) == left || min_of(left, right) == right,
{
}

/// The first batches hold the first rows: all of them where they reach the end, and as many full
/// batches otherwise.
pub proof fn law_first_batches_hold_the_first_rows<T>(rows: Seq<T>, count: int, batch_size: int)
    requires
        batch_size > 0,
        0 <= count <= batches_for(rows.len() as int, batch_size),
    ensures
        first_batches(rows, count, batch_size).len() <= rows.len(),
        first_batches(rows, count, batch_size).len() == count * batch_size || first_batches(
            rows,
            count,
            batch_size,
        ).len() == rows.len(),
        count * batch_size <= rows.len() ==> first_batches(rows, count, batch_size).len() == count
            * batch_size,
        count * batch_size >= rows.len() ==> first_batches(rows, count, batch_size).len()
            == rows.len(),
        first_batches(rows, count, batch_size) == rows.take(
            first_batches(rows, count, batch_size).len() as int,
        ),
{
    lemma_first_batches(rows, count, batch_size);
    assert(0 <= count * batch_size) by (nonlinear_arith)
        requires
            0 <= count,
            0 < batch_size,
    ;
}

} // verus!
