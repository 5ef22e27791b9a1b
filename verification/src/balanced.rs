//! The balanced-ternary expansion of an integer: its trits, found from the
//! ones place up by division by three with a remainder in -1, 0, +1.

use crate::powers::{lemma_max_magnitude_step, max_magnitude, pow3};
use vstd::prelude::*;

verus! {

/// The lowest balanced trit of `n`: the one of -1, 0, +1 that differs from
/// `n` by a multiple of three.
pub open spec fn low_trit(n: int) -> int {
    (n + 1) % 3 - 1
}

/// What is left of `n` above its lowest trit: `n == low_trit(n) + 3 *
/// carry(n)`. A remainder of two is written as the trit -1 and carries
/// one into the quotient.
pub open spec fn carry(n: int) -> int {
    (n - low_trit(n)) / 3
}

/// What is left of `n` once its `k` lowest trits are taken off.
pub open spec fn remaining(n: int, k: int) -> int
    decreases k,
{
    if k <= 0 {
        n
    } else {
        carry(remaining(n, k - 1))
    }
}

/// The balanced trit of `n` at position `i`, which weighs `3^i`.
pub open spec fn balanced_trit(n: int, i: int) -> int {
    if i < 0 {
        0
    } else {
        low_trit(remaining(n, i))
    }
}

/// The sum of `balanced_trit(n, i) * 3^i` over the positions below `k`.
pub open spec fn balanced_sum(n: int, k: int) -> int
    decreases k,
{
    if k <= 0 {
        0
    } else {
        balanced_sum(n, k - 1) + balanced_trit(n, k - 1) * pow3(k - 1)
    }
}

/// The lowest trit is one of -1, 0, +1, and with the carry it makes up the
/// number.
pub proof fn lemma_low_trit(n: int)
    ensures
        -1 <= low_trit(n) <= 1,
        n == low_trit(n) + 3 * carry(n),
{
}

/// Negating a number negates its lowest trit and its carry.
pub proof fn lemma_negation_step(n: int)
    ensures
        low_trit(-n) == -low_trit(n),
        carry(-n) == -carry(n),
{
}

/// Negating a number negates what remains of it at every position, and so
/// every trit of its expansion.
pub proof fn lemma_negation(n: int, k: int)
    ensures
        remaining(-n, k) == -remaining(n, k),
        balanced_trit(-n, k) == -balanced_trit(n, k),
    decreases k,
{
    if k > 0 {
        lemma_negation(n, k - 1);
        lemma_negation_step(remaining(n, k - 1));
    }
    lemma_negation_step(remaining(n, k));
}

/// Taking the lowest trit off a number that `k + 1` trits can express
/// leaves one that `k` trits can express.
pub proof fn lemma_carry_bound(n: int, k: int)
    requires
        0 <= k,
        -max_magnitude(k + 1) <= n <= max_magnitude(k + 1),
    ensures
        -max_magnitude(k) <= carry(n) <= max_magnitude(k),
{
    lemma_max_magnitude_step(k);
}

/// Of a number that `m` trits can express, `m - k` trits can express what
/// remains above its `k` lowest ones; above all `m`, nothing remains.
pub proof fn lemma_remaining_bound(n: int, m: int, k: int)
    requires
        0 <= k <= m,
        -max_magnitude(m) <= n <= max_magnitude(m),
    ensures
        -max_magnitude(m - k) <= remaining(n, k) <= max_magnitude(m - k),
        k == m ==> remaining(n, k) == 0,
    decreases k,
{
    if k > 0 {
        lemma_remaining_bound(n, m, k - 1);
        lemma_carry_bound(remaining(n, k - 1), m - k);
    }
    assert(pow3(0) == 1);
}

/// Once nothing remains, nothing remains further up, and every trit from
/// there on is 0.
pub proof fn lemma_remaining_zero(n: int, j: int, k: int)
    requires
        0 <= j <= k,
        remaining(n, j) == 0,
    ensures
        remaining(n, k) == 0,
        balanced_trit(n, k) == 0,
    decreases k - j,
{
    if j < k {
        lemma_remaining_zero(n, j, k - 1);
    }
}

/// The `k` lowest trits, each times its place value, and what remains
/// above them times `3^k`, make up the number.
pub proof fn lemma_expansion(n: int, k: int)
    requires
        0 <= k,
    ensures
        balanced_sum(n, k) + remaining(n, k) * pow3(k) == n,
    decreases k,
{
    if k == 0 {
        assert(remaining(n, 0) * pow3(0) == n) by (nonlinear_arith)
            requires
                remaining(n, 0) == n,
                pow3(0) == 1,
        ;
    } else {
        lemma_expansion(n, k - 1);
        let r: int = remaining(n, k - 1);
        let p: int = pow3(k - 1);
        lemma_low_trit(r);
        assert(low_trit(r) * p + carry(r) * (3 * p) == r * p) by (nonlinear_arith)
            requires
                r == low_trit(r) + 3 * carry(r),
        ;
    }
}

} // verus!
