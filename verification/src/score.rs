//! Ratings and other catalog numbers, kept as the bit pattern of an
//! IEEE 754 single-precision number so that they pass through unchanged.

use vstd::prelude::*;

verus! {

/// A single-precision number held as its 32 bits.
#[derive(Clone, Copy, Debug)]
pub struct Score {
    pub bits: u32,
}

/// The bit pattern of negative zero.
pub const NEGATIVE_ZERO_BITS: u32 = 0x8000_0000;

impl Score {
    /// True for the two patterns that compare equal to zero: `+0.0` and `-0.0`.
    pub open spec fn is_zero(self) -> bool {
        self.bits == 0 || self.bits == NEGATIVE_ZERO_BITS
    }

    /// The score with the given bit pattern.
    pub fn from_bits(bits: u32) -> (score: Score)
        ensures
            score.bits == bits,
    {
        Score { bits }
    }

    /// The bit pattern of this score.
    pub fn to_bits(&self) -> (bits: u32)
        ensures
            bits == self.bits,
    {
        self.bits
    }

    /// The unrated sentinel, positive zero.
    pub fn zero() -> (score: Score)
        ensures
            score.bits == 0,
            score.is_zero(),
    {
        Score { bits: 0 }
    }

    /// Whether this score compares equal to zero, that is, whether it is unrated.
    pub fn is_unrated(&self) -> (unrated: bool)
        ensures
            unrated == self.is_zero(),
    {
        self.bits == 0 || self.bits == NEGATIVE_ZERO_BITS
    }
}

/// What merging two ratings gives: the other one where the local one is
/// zero, the local one otherwise.
pub open spec fn merge_rating(local: Score, other: Score) -> Score {
    if local.is_zero() {
        other
    } else {
        local
    }
}

/// An unrated side gives way to the other rating, whatever that is; a
/// rated local side wins over any other rating.
pub proof fn lemma_merge_rating(local: Score, other: Score)
    ensures
        local.is_zero() ==> merge_rating(local, other) == other,
        !local.is_zero() ==> merge_rating(local, other) == local,
        merge_rating(Score { bits: 0 }, other) == other,
{
}

/// Picks the rating that carries a value, preferring the local one.
pub fn pick_with_value(rating: Score, other_rating: Score) -> (picked: Score)
    ensures
        picked == merge_rating(rating, other_rating),
{
    if rating.is_unrated() {
        return other_rating;
    }
    rating
}

} // verus!
