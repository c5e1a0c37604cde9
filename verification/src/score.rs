//! The [`Score`] type: a value of the unit interval `[0, 1]`.
//!
//! A score is held as the bit pattern of an IEEE-754 single precision number.
//! For the non-negative numbers up to one, the order of the bit patterns as
//! unsigned integers is the order of the numbers they encode, so every
//! comparison in this library is a comparison of integers.

use vstd::prelude::*;

verus! {

/// Bit pattern of the smallest score, zero.
pub const MIN_BITS: u32 = 0;

/// Bit pattern of the largest score, one.
pub const MAX_BITS: u32 = 0x3F80_0000;

/// Bit pattern of positive infinity; every pattern whose magnitude lies above
/// it encodes a NaN.
pub const INFINITY_BITS: u32 = 0x7F80_0000;

/// Smallest bit pattern with the sign bit set.
pub const SIGN_BIT: u32 = 0x8000_0000;

/// Bit pattern of negative infinity.
pub const NEGATIVE_INFINITY_BITS: u32 = 0xFF80_0000;

/// Whether `bits` encodes a NaN: its magnitude lies above that of infinity.
pub open spec fn is_nan_bits(bits: u32) -> bool {
    (INFINITY_BITS < bits && bits < SIGN_BIT) || bits > NEGATIVE_INFINITY_BITS
}

/// The bit pattern that `bits` is clamped to: negative numbers (negative zero
/// among them) become zero, numbers above one become one.
pub open spec fn clamp_bits(bits: u32) -> u32 {
    if bits >= SIGN_BIT {
        MIN_BITS
    } else if bits > MAX_BITS {
        MAX_BITS
    } else {
        bits
    }
}

/// A score in the range `[0, 1]`. Never a NaN.
#[derive(Clone, Copy, Debug, PartialEq, Eq, PartialOrd, Ord, Hash, Structural)]
pub struct Score {
    bits: u32,
}

impl View for Score {
    type V = u32;

    /// The bit pattern of the score.
    closed spec fn view(&self) -> u32 {
        self.bits
    }
}

impl Score {
    #[verifier::type_invariant]
    closed spec fn in_range(self) -> bool {
        self.bits <= MAX_BITS
    }

    /// The minimum possible score, in specifications.
    pub closed spec fn spec_min() -> Score {
        Score { bits: MIN_BITS }
    }

    /// The maximum possible score, in specifications.
    pub closed spec fn spec_max() -> Score {
        Score { bits: MAX_BITS }
    }

    /// The minimum possible score.
    pub fn min_score() -> (score: Score)
        ensures
            score == Score::spec_min(),
            score@ == MIN_BITS,
    {
        Score { bits: MIN_BITS }
    }

    /// The maximum possible score.
    pub fn max_score() -> (score: Score)
        ensures
            score == Score::spec_max(),
            score@ == MAX_BITS,
    {
        Score { bits: MAX_BITS }
    }

    /// Whether a bit pattern encodes a NaN, from which no score can be made.
    pub fn is_nan(bits: u32) -> (nan: bool)
        ensures
            nan == is_nan_bits(bits),
    {
        (INFINITY_BITS < bits && bits < SIGN_BIT) || bits > NEGATIVE_INFINITY_BITS
    }

    /// Creates a score from the bit pattern of a number, clamping the number
    /// to `[0, 1]`.
    pub fn new(bits: u32) -> (score: Score)
        requires
            !is_nan_bits(bits),
        ensures
            score@ == clamp_bits(bits),
    {
        if bits >= SIGN_BIT {
            Score { bits: MIN_BITS }
        } else if bits > MAX_BITS {
            Score { bits: MAX_BITS }
        } else {
            Score { bits }
        }
    }

    /// Creates a score from the bit pattern of a number, or nothing where the
    /// pattern encodes a NaN.
    pub fn try_new(bits: u32) -> (score: Option<Score>)
        ensures
            is_nan_bits(bits) <==> score is None,
            score matches Some(s) ==> s@ == clamp_bits(bits),
    {
        if Score::is_nan(bits) {
            None
        } else {
            Some(Score::new(bits))
        }
    }

    /// Returns the bit pattern of the score.
    pub fn get(&self) -> (bits: u32)
        ensures
            bits == self@,
            bits <= MAX_BITS,
    {
        proof {
            use_type_invariant(self);
        }
        self.bits
    }

    /// Sets the score to the number that `bits` encodes, clamped to `[0, 1]`.
    pub fn set(&mut self, bits: u32)
        requires
            !is_nan_bits(bits),
        ensures
            final(self)@ == clamp_bits(bits),
    {
        *self = Score::new(bits);
    }

    /// Whether this score is strictly below `other`.
    pub fn below(&self, other: &Score) -> (less: bool)
        ensures
            less == (self@ < other@),
    {
        self.bits < other.bits
    }

}

/// Types that can be converted into a [`Score`]. Converting only reads: a
/// value always converts into the same score, and [`Scoreable::scored`] is
/// its name.
pub trait Scoreable {
    /// The score that the value converts into.
    spec fn scored(&self) -> Score;

    /// Converts the value into a score.
    fn score(&self) -> (score: Score)
        ensures
            score == self.scored(),
    ;
}

/// A score converts into itself.
impl Scoreable for Score {
    open spec fn scored(&self) -> Score {
        *self
    }

    fn score(&self) -> (score: Score) {
        *self
    }
}

impl Default for Score {
    fn default() -> (score: Score)
        ensures
            score@ == MIN_BITS,
    {
        Score { bits: MIN_BITS }
    }
}

/// The bit patterns of the minimum and of the maximum.
pub proof fn score_bounds_bits()
    ensures
        Score::spec_min()@ == MIN_BITS,
        Score::spec_max()@ == MAX_BITS,
{
}

/// Every pattern that encodes a number makes a score of the unit interval:
/// its clamp lies between the minimum and the maximum and encodes a number.
/// A pattern that encodes a NaN makes no score.
pub proof fn new_yields_unit_score(bits: u32)
    requires
        !is_nan_bits(bits),
    ensures
        MIN_BITS <= clamp_bits(bits) <= MAX_BITS,
        !is_nan_bits(clamp_bits(bits)),
{
}

/// A bit pattern of the unit interval encodes no NaN and is its own clamp.
pub proof fn lemma_unit_bits(bits: u32)
    requires
        bits <= MAX_BITS,
    ensures
        !is_nan_bits(bits),
        clamp_bits(bits) == bits,
{
}

/// Two scores with the same bit pattern are the same score.
pub proof fn score_determined_by_bits(a: Score, b: Score)
    ensures
        a@ == b@ <==> a == b,
{
}

/// Clamping never leaves the unit interval, and leaves a pattern of the unit
/// interval unchanged.
pub proof fn clamp_bits_in_unit_interval(bits: u32)
    ensures
        MIN_BITS <= clamp_bits(bits) <= MAX_BITS,
        bits <= MAX_BITS ==> clamp_bits(bits) == bits,
{
}

} // verus!
