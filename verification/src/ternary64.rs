//! The 64-trit value type, its mathematical model, and its core operations.

use crate::bits::{
    bit, lemma_bit_of_shifted, lemma_no_bit_above, lemma_shift_ends, lemma_union_zero,
};
use crate::powers::{
    lemma_max_magnitude_step, lemma_pow3_64, lemma_pow3_increases, max_magnitude, pow3,
};
use vstd::prelude::*;

verus! {

/// A balanced-ternary integer of up to 64 trits.
///
/// The trit at position `i` weighs `3^i`. It is +1 where only `positive` has
/// bit `i` set, -1 where only `negative` has it set, and 0 where neither
/// has. A position set in both masks is a collision: it reads as 0 as well,
/// and [`Ternary64::normalize`] clears it from both masks.
#[derive(Debug, Clone, Copy, PartialEq, Eq, Structural)]
pub struct Ternary64 {
    /// Bit `i` is set where trit `i` is +1.
    pub positive: u64,
    /// Bit `i` is set where trit `i` is -1.
    pub negative: u64,
}

impl View for Ternary64 {
    type V = Seq<int>;

    /// The 64 trits, least significant first.
    open spec fn view(&self) -> Seq<int> {
        Seq::new(64, |i: int| self.trit(i))
    }
}

impl Ternary64 {
    /// The trit at position `i`: +1, -1 or 0. Positions outside `0..64`
    /// hold 0.
    pub open spec fn trit(self, i: int) -> int {
        if bit(self.positive, i) && !bit(self.negative, i) {
            1
        } else if bit(self.negative, i) && !bit(self.positive, i) {
            -1
        } else {
            0
        }
    }

    /// No position is set in both masks.
    pub open spec fn is_normalized(self) -> bool {
        self.positive & self.negative == 0
    }

    /// The sum of `trit(i) * 3^i` over the positions below `k`.
    pub open spec fn partial_value(self, k: int) -> int
        decreases k,
    {
        if k <= 0 {
            0
        } else {
            self.partial_value(k - 1) + self.trit(k - 1) * pow3(k - 1)
        }
    }

    /// The integer that the 64 trits denote.
    pub open spec fn value(self) -> int {
        self.partial_value(64)
    }

    /// The trits below `k` cannot sum past the largest `k`-trit magnitude.
    pub proof fn lemma_partial_value_bound(self, k: int)
        requires
            0 <= k,
        ensures
            -max_magnitude(k) <= self.partial_value(k) <= max_magnitude(k),
        decreases k,
    {
        if k > 0 {
            self.lemma_partial_value_bound(k - 1);
            lemma_max_magnitude_step(k - 1);
            self.lemma_term(k - 1);
        } else {
            assert(pow3(k) == 1);
        }
    }

    /// The value of any 64 trits fits a signed 128-bit integer.
    pub proof fn lemma_value_fits(self)
        ensures
            -max_magnitude(64) <= self.value() <= max_magnitude(64),
            i128::MIN < self.value() < i128::MAX,
    {
        self.lemma_partial_value_bound(64);
        lemma_pow3_64();
    }

    /// What the trit at position `i` adds to the sum: its place value, the
    /// negative of it, or nothing.
    pub proof fn lemma_term(self, i: int)
        ensures
            self.trit(i) == 1 ==> self.trit(i) * pow3(i) == pow3(i),
            self.trit(i) == -1 ==> self.trit(i) * pow3(i) == -pow3(i),
            self.trit(i) == 0 ==> self.trit(i) * pow3(i) == 0,
            -1 <= self.trit(i) <= 1,
    {
        let p: int = pow3(i);
        assert(1 * p == p && (-1) * p == -p && 0 * p == 0) by (nonlinear_arith);
    }

    /// Positions that hold 0 add nothing: if every trit from `j` up to `k`
    /// is 0, the sums below `j` and below `k` agree.
    pub proof fn lemma_partial_value_extends(self, j: int, k: int)
        requires
            0 <= j <= k,
            forall|i: int| j <= i < k ==> self.trit(i) == 0,
        ensures
            self.partial_value(k) == self.partial_value(j),
        decreases k - j,
    {
        if j < k {
            self.lemma_partial_value_extends(j, k - 1);
        }
    }

    /// The value with every collision cleared from both masks.
    pub open spec fn normalized(self) -> Ternary64 {
        Ternary64 {
            positive: self.positive & !(self.positive & self.negative),
            negative: self.negative & !(self.positive & self.negative),
        }
    }

    /// The value with the two masks swapped: every +1 becomes -1 and every
    /// -1 becomes +1.
    pub open spec fn negated(self) -> Ternary64 {
        Ternary64 { positive: self.negative, negative: self.positive }
    }

    /// Clearing the collisions keeps a bit of either mask exactly where the
    /// other mask has none.
    pub proof fn lemma_normalized_bit(self, i: int)
        ensures
            bit(self.normalized().positive, i) == (bit(self.positive, i) && !bit(self.negative, i)),
            bit(self.normalized().negative, i) == (bit(self.negative, i) && !bit(self.positive, i)),
    {
        if 0 <= i < 64 {
            let p: u64 = self.positive;
            let n: u64 = self.negative;
            let s: u64 = i as u64;
            assert((((p & !(p & n)) >> s) & 1 == 1) == (((p >> s) & 1 == 1) && !((n >> s) & 1
                == 1))) by (bit_vector)
                requires
                    s < 64,
            ;
            assert((((n & !(p & n)) >> s) & 1 == 1) == (((n >> s) & 1 == 1) && !((p >> s) & 1
                == 1))) by (bit_vector)
                requires
                    s < 64,
            ;
        }
    }

    /// Clearing the collisions leaves no position set in both masks and
    /// keeps every trit, and with them the value. Where there is no
    /// collision it changes nothing.
    pub proof fn lemma_normalized(self)
        ensures
            self.normalized().is_normalized(),
            forall|i: int| self.normalized().trit(i) == self.trit(i),
            self.normalized()@ == self@,
            self.normalized().value() == self.value(),
            self.is_normalized() ==> self.normalized() == self,
    {
        let p: u64 = self.positive;
        let n: u64 = self.negative;
        assert((p & !(p & n)) & (n & !(p & n)) == 0) by (bit_vector);
        assert(p & n == 0 ==> p & !(p & n) == p && n & !(p & n) == n) by (bit_vector);
        assert forall|i: int| self.normalized().trit(i) == self.trit(i) by {
            self.lemma_normalized_bit(i);
        }
        assert(self.normalized()@ =~= self@);
        self.lemma_partial_value_agrees(self.normalized(), 64);
    }

    /// Two values with the same trits below `k` have the same sum below `k`.
    pub proof fn lemma_partial_value_agrees(self, other: Ternary64, k: int)
        requires
            forall|i: int| 0 <= i < k ==> self.trit(i) == other.trit(i),
        ensures
            self.partial_value(k) == other.partial_value(k),
        decreases k,
    {
        if k > 0 {
            self.lemma_partial_value_agrees(other, k - 1);
        }
    }

    /// Swapping the masks negates every trit, and with them the value; it
    /// makes no collision where there was none.
    pub proof fn lemma_negated(self)
        ensures
            forall|i: int| self.negated().trit(i) == -self.trit(i),
            self.negated().value() == -self.value(),
            self.is_normalized() == self.negated().is_normalized(),
    {
        let p: u64 = self.positive;
        let n: u64 = self.negative;
        assert(p & n == n & p) by (bit_vector);
        self.lemma_negated_partial_value(64);
    }

    /// Swapping the masks negates the sum of the trits below `k`.
    proof fn lemma_negated_partial_value(self, k: int)
        ensures
            self.negated().partial_value(k) == -self.partial_value(k),
        decreases k,
    {
        if k > 0 {
            self.lemma_negated_partial_value(k - 1);
            self.lemma_term(k - 1);
            self.negated().lemma_term(k - 1);
        }
    }

    /// Clears every collision: a position set in both masks is cleared in
    /// both, and every other position is left as it is.
    ///
    /// A collision already reads as 0, so the trits and the value stay the
    /// same; afterwards no position is set in both masks.
    pub fn normalize(&mut self)
        ensures
            *final(self) == old(self).normalized(),
            final(self).is_normalized(),
            final(self)@ == old(self)@,
            final(self).value() == old(self).value(),
    {
        proof {
            self.lemma_normalized();
        }
        let colliding_bits: u64 = self.positive & self.negative;
        let kept_bits: u64 = !colliding_bits;
        self.positive = self.positive & kept_bits;
        self.negative = self.negative & kept_bits;
    }

    /// Returns the additive inverse: the value with the two masks swapped.
    ///
    /// The receiver is left as it is. A normalized value has a normalized
    /// inverse.
    pub fn negate(self) -> (result: Ternary64)
        ensures
            result == self.negated(),
            result.value() == -self.value(),
            result.is_normalized() == self.is_normalized(),
    {
        proof {
            self.lemma_negated();
        }
        Ternary64 { positive: self.negative, negative: self.positive }
    }

    /// Converts the value to a signed 128-bit integer.
    ///
    /// Walks the positions from the ones place up, as long as either mask
    /// still has a bit left, and adds or subtracts the place value of each
    /// trit. A collision adds nothing.
    pub fn to_signed_integer(self) -> (result: i128)
        ensures
            result == self.value(),
    {
        let mut positive: u64 = self.positive;
        let mut negative: u64 = self.negative;
        let mut total: i128 = 0;
        let mut power_of_3: i128 = 1;
        let mut k: u64 = 0;
        proof {
            lemma_shift_ends(self.positive);
            lemma_shift_ends(self.negative);
            lemma_pow3_64();
        }
        while (positive | negative) != 0
            invariant
                k <= 64,
                positive == self.positive >> k,
                negative == self.negative >> k,
                power_of_3 == pow3(k as int),
                total == self.partial_value(k as int),
                pow3(64) == 3433683820292512484657849089281,
            decreases 64 - k,
        {
            proof {
                lemma_shift_ends(self.positive);
                lemma_shift_ends(self.negative);
                lemma_union_zero(positive, negative);
                assert(k < 64);
                lemma_bit_of_shifted(self.positive, k as int);
                lemma_bit_of_shifted(self.negative, k as int);
                self.lemma_partial_value_bound(k as int);
                lemma_max_magnitude_step(k as int);
                lemma_pow3_increases(k as int + 1, 64);
            }
            if positive & 1 == 1 {
                total += power_of_3;
            }
            if negative & 1 == 1 {
                total -= power_of_3;
            }
            positive >>= 1;
            negative >>= 1;
            power_of_3 *= 3;
            k += 1;
        }
        proof {
            lemma_union_zero(positive, negative);
            assert forall|i: int| k <= i < 64 implies self.trit(i) == 0 by {
                lemma_no_bit_above(self.positive, k as int, i);
                lemma_no_bit_above(self.negative, k as int, i);
            }
            self.lemma_partial_value_extends(k as int, 64);
        }
        total
    }
}

} // verus!
