//! Powers of three, the place values of a ternary numeral.

use vstd::prelude::*;

verus! {

/// Three to the power `k`, the weight of the trit at position `k`.
/// Negative exponents are read as zero.
pub open spec fn pow3(k: int) -> int
    decreases k,
{
    if k <= 0 {
        1
    } else {
        3 * pow3(k - 1)
    }
}

/// The largest magnitude that `k` trits can express: every trit set to +1,
/// which sums to `(3^k - 1) / 2`.
pub open spec fn max_magnitude(k: int) -> int {
    (pow3(k) - 1) / 2
}

/// Every power of three is odd and at least one.
pub proof fn lemma_pow3_odd(k: int)
    ensures
        pow3(k) >= 1,
        pow3(k) % 2 == 1,
    decreases k,
{
    if k > 0 {
        lemma_pow3_odd(k - 1);
    }
}

/// Adding the next place value on top of the largest `k`-trit magnitude
/// gives the largest magnitude of `k + 1` trits.
pub proof fn lemma_max_magnitude_step(k: int)
    requires
        k >= 0,
    ensures
        max_magnitude(k) >= 0,
        max_magnitude(k + 1) == 3 * max_magnitude(k) + 1,
        max_magnitude(k + 1) == max_magnitude(k) + pow3(k),
{
    lemma_pow3_odd(k);
    assert(pow3(k + 1) == 3 * pow3(k));
}

/// Place values grow with the position.
pub proof fn lemma_pow3_increases(j: int, k: int)
    requires
        j <= k,
    ensures
        pow3(j) <= pow3(k),
    decreases k - j,
{
    if j < k {
        lemma_pow3_increases(j, k - 1);
        lemma_pow3_odd(k - 1);
        if k - 1 < 0 {
            assert(pow3(k) == 1);
        }
    }
}

/// The value of `3^41`. Half of it is more than the magnitude of any signed
/// 64-bit integer, so 41 trits are enough for each of them.
pub proof fn lemma_pow3_41()
    ensures
        pow3(41) == 36472996377170786403,
        -max_magnitude(41) <= i64::MIN,
        max_magnitude(41) >= i64::MAX,
{
    reveal_with_fuel(pow3, 42);
}

/// The value of `3^42`. Half of it is more than any unsigned 64-bit integer,
/// so 42 trits are enough for each of them.
pub proof fn lemma_pow3_42()
    ensures
        pow3(42) == 109418989131512359209,
        max_magnitude(42) >= u64::MAX,
{
    reveal_with_fuel(pow3, 43);
}

/// The value of `3^64`, which bounds every place value of a 64-trit numeral
/// and fits a signed 128-bit integer with room to spare.
pub proof fn lemma_pow3_64()
    ensures
        pow3(64) == 3433683820292512484657849089281,
{
    reveal_with_fuel(pow3, 65);
}

} // verus!
