//! Conversion of binary integers into balanced ternary.

use crate::balanced::{
    balanced_sum, balanced_trit, lemma_expansion, lemma_low_trit, lemma_negation,
    lemma_remaining_bound, lemma_remaining_zero, remaining,
};
use crate::bits::{
    bit, lemma_bit_of_union_with_one_hot, lemma_bit_of_zero, lemma_disjoint_bitwise, one_hot,
};
use crate::powers::{lemma_max_magnitude_step, lemma_pow3_42, lemma_pow3_64, max_magnitude, pow3};
use crate::ternary64::Ternary64;
use vstd::prelude::*;

verus! {

/// The mask of the positions below `k` at which the balanced expansion of
/// `n` holds the trit `sign`.
pub open spec fn trit_mask(n: int, sign: int, k: int) -> u64
    decreases k,
{
    if k <= 0 {
        0
    } else if balanced_trit(n, k - 1) == sign {
        trit_mask(n, sign, k - 1) | one_hot(k - 1)
    } else {
        trit_mask(n, sign, k - 1)
    }
}

/// A bit of the mask is set exactly at the positions below `k` that hold
/// the trit `sign`.
pub proof fn lemma_trit_mask_bit(n: int, sign: int, k: int, i: int)
    requires
        0 <= k <= 64,
    ensures
        bit(trit_mask(n, sign, k), i) == (0 <= i < k && balanced_trit(n, i) == sign),
    decreases k,
{
    if k <= 0 {
        lemma_bit_of_zero(i);
    } else {
        lemma_trit_mask_bit(n, sign, k - 1, i);
        if balanced_trit(n, k - 1) == sign {
            lemma_bit_of_union_with_one_hot(trit_mask(n, sign, k - 1), k - 1, i);
        }
    }
}

/// Where the expansion holds only 0 from `j` up, the mask below `k` is the
/// mask below `j`.
pub proof fn lemma_trit_mask_extends(n: int, sign: int, j: int, k: int)
    requires
        0 <= j <= k,
        sign != 0,
        remaining(n, j) == 0,
    ensures
        trit_mask(n, sign, k) == trit_mask(n, sign, j),
    decreases k - j,
{
    if j < k {
        lemma_trit_mask_extends(n, sign, j, k - 1);
        lemma_remaining_zero(n, j, k - 1);
    }
}

/// The expansion of `-n` holds +1 where that of `n` holds -1, and the other
/// way round.
pub proof fn lemma_trit_mask_negation(n: int, sign: int, k: int)
    ensures
        trit_mask(-n, sign, k) == trit_mask(n, -sign, k),
    decreases k,
{
    if k > 0 {
        lemma_trit_mask_negation(n, sign, k - 1);
        lemma_negation(n, k - 1);
    }
}

impl Ternary64 {
    /// The balanced-ternary encoding of `n`: trit `i` of the result is the
    /// balanced trit of `n` at position `i`, for each of the 64 positions.
    pub open spec fn from_int(n: int) -> Ternary64 {
        Ternary64 { positive: trit_mask(n, 1, 64), negative: trit_mask(n, -1, 64) }
    }

    /// The encoding holds the trits of the expansion and has no collision.
    pub proof fn lemma_from_int_trits(n: int)
        ensures
            Self::from_int(n).is_normalized(),
            forall|i: int| 0 <= i < 64 ==> Self::from_int(n).trit(i) == balanced_trit(n, i),
    {
        let t = Self::from_int(n);
        assert forall|i: int| !(bit(t.positive, i) && bit(t.negative, i)) by {
            lemma_trit_mask_bit(n, 1, 64, i);
            lemma_trit_mask_bit(n, -1, 64, i);
        }
        lemma_disjoint_bitwise(t.positive, t.negative);
        assert forall|i: int| 0 <= i < 64 implies t.trit(i) == balanced_trit(n, i) by {
            lemma_trit_mask_bit(n, 1, 64, i);
            lemma_trit_mask_bit(n, -1, 64, i);
            lemma_low_trit(remaining(n, i));
        }
    }

    /// The trits of the encoding below `k` sum to the same as those of the
    /// expansion.
    proof fn lemma_from_int_partial_value(n: int, k: int)
        requires
            0 <= k <= 64,
        ensures
            Self::from_int(n).partial_value(k) == balanced_sum(n, k),
        decreases k,
    {
        if k > 0 {
            Self::lemma_from_int_partial_value(n, k - 1);
            Self::lemma_from_int_trits(n);
        }
    }

    /// Every integer that 64 trits can express is the value of its
    /// encoding.
    pub proof fn lemma_from_int_value(n: int)
        requires
            -max_magnitude(64) <= n <= max_magnitude(64),
        ensures
            Self::from_int(n).value() == n,
    {
        Self::lemma_from_int_partial_value(n, 64);
        lemma_expansion(n, 64);
        lemma_remaining_bound(n, 64, 64);
        assert(remaining(n, 64) * pow3(64) == 0) by (nonlinear_arith)
            requires
                remaining(n, 64) == 0,
        ;
    }

    /// The encoding of `-n` is the encoding of `n` with its masks swapped.
    pub proof fn lemma_from_int_negation(n: int)
        ensures
            Self::from_int(-n) == Self::from_int(n).negated(),
    {
        lemma_trit_mask_negation(n, 1, 64);
        lemma_trit_mask_negation(n, -1, 64);
    }

    /// Converts an unsigned 64-bit integer to balanced ternary.
    ///
    /// Divides by three until nothing is left. A remainder of one sets the
    /// trit +1; a remainder of two sets the trit -1 and carries one into
    /// the quotient. No integer takes more than 42 steps. The result has no
    /// collision and its value is `binary`.
    pub fn from_unsigned_integer(binary: u64) -> (result: Ternary64)
        ensures
            result == Self::from_int(binary as int),
            result.is_normalized(),
            result.value() == binary,
    {
        let mut rest: u64 = binary;
        let mut positive: u64 = 0;
        let mut negative: u64 = 0;
        let mut k: u32 = 0;
        let ghost n: int = binary as int;
        proof {
            lemma_pow3_42();
        }
        while rest != 0
            invariant
                n == binary,
                k <= 42,
                rest == remaining(n, k as int),
                0 <= rest <= max_magnitude(42 - k),
                positive == trit_mask(n, 1, k as int),
                negative == trit_mask(n, -1, k as int),
            decreases 42 - k,
        {
            proof {
                if k == 42 {
                    assert(pow3(0) == 1);
                }
                lemma_max_magnitude_step(41 - k);
                lemma_low_trit(rest as int);
            }
            let place: u64 = 1u64 << k;
            let remainder: u64 = rest % 3;
            rest = rest / 3;
            if remainder == 1 {
                positive = positive | place;
            } else if remainder == 2 {
                negative = negative | place;
                rest = rest + 1;
            }
            k = k + 1;
        }
        proof {
            lemma_trit_mask_extends(n, 1, k as int, 64);
            lemma_trit_mask_extends(n, -1, k as int, 64);
            Self::lemma_from_int_trits(n);
            lemma_pow3_64();
            Self::lemma_from_int_value(n);
        }
        Ternary64 { positive, negative }
    }

    /// Converts a signed 64-bit integer to balanced ternary.
    ///
    /// A negative number is converted by its magnitude, and the result
    /// negated. The result has no collision and its value is `binary`.
    pub fn from_signed_integer(binary: i64) -> (result: Ternary64)
        ensures
            result == Self::from_int(binary as int),
            result.is_normalized(),
            result.value() == binary,
    {
        if binary >= 0 {
            Self::from_unsigned_integer(binary as u64)
        } else {
            let magnitude: u64 = (0 - binary as i128) as u64;
            proof {
                Self::lemma_from_int_negation(magnitude as int);
            }
            Self::from_unsigned_integer(magnitude).negate()
        }
    }
}

} // verus!
