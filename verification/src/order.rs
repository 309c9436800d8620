//! Measured quantities and fractional settings as integers that keep their order.

use vstd::prelude::*;

verus! {

/// The key of infinity.
pub const INFINITY_KEY: i64 = 0x7ff0_0000_0000_0000;

/// The key of one.
pub const ONE_KEY: i64 = 0x3ff0_0000_0000_0000;

/// A fractional number: either not a number, which no comparison holds of, or its key.
///
/// The key of a double is the integer that its bits write without the sign, negated for a negative
/// number. Keys are ordered as the numbers are, and both zeros have the key zero.
#[derive(Clone, Copy, PartialEq, Eq, Structural, Debug)]
pub enum Score {
    NotANumber,
    Key(i64),
}

impl Score {
    /// `self` is strictly smaller than `other`.
    pub open spec fn below(self, other: Score) -> bool {
        match (self, other) {
            (Score::Key(left), Score::Key(right)) => left < right,
            _ => false,
        }
    }

    /// Whether `self` is strictly smaller than `other`.
    pub fn is_below(self, other: Score) -> (answer: bool)
        ensures
            answer == self.below(other),
    {
        match (self, other) {
            (Score::Key(left), Score::Key(right)) => left < right,
            _ => false,
        }
    }

    /// `self` is at most `other`.
    pub open spec fn at_most(self, other: Score) -> bool {
        match (self, other) {
            (Score::Key(left), Score::Key(right)) => left <= right,
            _ => false,
        }
    }

    /// Whether `self` is at most `other`.
    pub fn is_at_most(self, other: Score) -> (answer: bool)
        ensures
            answer == self.at_most(other),
    {
        match (self, other) {
            (Score::Key(left), Score::Key(right)) => left <= right,
            _ => false,
        }
    }

    /// The number of key `key` is at most `self`.
    pub open spec fn from_key(self, key: i64) -> bool {
        self matches Score::Key(own) && own >= key
    }

    /// Whether `self` is at least the number of key `key`.
    pub fn is_from_key(self, key: i64) -> (answer: bool)
        ensures
            answer == self.from_key(key),
    {
        match self {
            Score::Key(own) => own >= key,
            Score::NotANumber => false,
        }
    }

    /// `self` exceeds the number of key `key`.
    pub open spec fn over_key(self, key: i64) -> bool {
        self matches Score::Key(own) && own > key
    }

    /// Whether `self` exceeds the number of key `key`.
    pub fn is_over_key(self, key: i64) -> (answer: bool)
        ensures
            answer == self.over_key(key),
    {
        match self {
            Score::Key(own) => own > key,
            Score::NotANumber => false,
        }
    }

    /// `self` is a number other than the infinities.
    pub open spec fn finite(self) -> bool {
        self matches Score::Key(own) && -INFINITY_KEY < own < INFINITY_KEY
    }

    /// Whether `self` is a finite number.
    pub fn is_finite(self) -> (answer: bool)
        ensures
            answer == self.finite(),
    {
        match self {
            Score::Key(own) => -INFINITY_KEY < own && own < INFINITY_KEY,
            Score::NotANumber => false,
        }
    }

    /// `self` is finite and greater than zero.
    pub open spec fn positive(self) -> bool {
        self.finite() && self.over_key(0)
    }

    /// Whether `self` is finite and greater than zero.
    pub fn is_positive(self) -> (answer: bool)
        ensures
            answer == self.positive(),
    {
        self.is_finite() && self.is_over_key(0)
    }

    /// `self` is finite and not negative.
    pub open spec fn non_negative(self) -> bool {
        self.finite() && self.from_key(0)
    }

    /// Whether `self` is finite and not negative.
    pub fn is_non_negative(self) -> (answer: bool)
        ensures
            answer == self.non_negative(),
    {
        self.is_finite() && self.is_from_key(0)
    }

    /// `self` lies between zero and one, both included.
    pub open spec fn in_unit_range(self) -> bool {
        self matches Score::Key(own) && 0 <= own <= ONE_KEY
    }

    /// Whether `self` lies between zero and one, both included.
    pub fn is_in_unit_range(self) -> (answer: bool)
        ensures
            answer == self.in_unit_range(),
    {
        match self {
            Score::Key(own) => 0 <= own && own <= ONE_KEY,
            Score::NotANumber => false,
        }
    }
}

/// Numbers are compared by their keys.
pub proof fn law_numbers_are_compared_by_their_keys(left: i64, right: i64)
    ensures
        Score::Key(left).below(Score::Key(right)) <==> left < right,
        Score::Key(left).at_most(Score::Key(right)) <==> left <= right,
        Score::Key(left).from_key(right) <==> left >= right,
        Score::Key(left).over_key(right) <==> left > right,
{
}

/// No comparison holds of what is not a number.
pub proof fn law_nothing_compares_with_what_is_no_number(other: Score, key: i64)
    ensures
        !Score::NotANumber.below(other),
        !other.below(Score::NotANumber),
        !Score::NotANumber.at_most(other),
        !other.at_most(Score::NotANumber),
        !Score::NotANumber.from_key(key),
        !Score::NotANumber.over_key(key),
        !Score::NotANumber.finite(),
        !Score::NotANumber.in_unit_range(),
{
}

/// Of two numbers either one lies below the other or they are the same, and what lies below what is
/// at most a third lies below the third.
pub proof fn law_numbers_are_ordered(first: Score, second: Score, third: Score)
    requires
        first is Key,
        second is Key,
    ensures
        first.at_most(second) <==> !second.below(first),
        first.at_most(second) && second.at_most(first) <==> first == second,
        first.below(second) && second.at_most(third) ==> first.below(third),
        first.at_most(second) && second.below(third) ==> first.below(third),
{
}

/// Finite numbers lie between the two infinities; the bounds of the other ranges are zero and one.
pub proof fn law_ranges_have_their_bounds(score: Score)
    ensures
        INFINITY_KEY == 0x7ff0_0000_0000_0000,
        ONE_KEY == 0x3ff0_0000_0000_0000,
        score.finite() <==> Score::Key((-0x7ff0_0000_0000_0000) as i64).below(score) && score.below(
            Score::Key(0x7ff0_0000_0000_0000),
        ),
        score.positive() <==> Score::Key(0).below(score) && score.below(
            Score::Key(0x7ff0_0000_0000_0000),
        ),
        score.non_negative() <==> Score::Key(0).at_most(score) && score.below(
            Score::Key(0x7ff0_0000_0000_0000),
        ),
        score.in_unit_range() <==> Score::Key(0).at_most(score) && score.at_most(
            Score::Key(0x3ff0_0000_0000_0000),
        ),
{
}

} // verus!
