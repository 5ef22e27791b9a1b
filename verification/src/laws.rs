//! Laws that hold of the operations on [`Ternary64`], each stated over the
//! model of the type and proved.

use crate::balanced::{lemma_remaining_bound, lemma_remaining_zero};
use crate::bits::{bit, lemma_bit_of_zero, lemma_disjoint_bitwise, lemma_equal_bits};
use crate::powers::{lemma_pow3_41, lemma_pow3_42, lemma_pow3_64, lemma_pow3_odd, max_magnitude};
use crate::render::trit_char;
use crate::ternary64::Ternary64;
use vstd::prelude::*;

verus! {

/// Converting a signed 64-bit integer to balanced ternary and back gives
/// the integer: its encoding has no collision and denotes it.
pub proof fn lemma_signed_round_trip(n: i64)
    ensures
        Ternary64::from_int(n as int).is_normalized(),
        Ternary64::from_int(n as int).value() == n,
{
    lemma_pow3_64();
    Ternary64::lemma_from_int_trits(n as int);
    Ternary64::lemma_from_int_value(n as int);
}

/// Converting an unsigned 64-bit integer to balanced ternary and back gives
/// the integer: its encoding has no collision and denotes it.
pub proof fn lemma_unsigned_round_trip(n: u64)
    ensures
        Ternary64::from_int(n as int).is_normalized(),
        Ternary64::from_int(n as int).value() == n,
{
    lemma_pow3_64();
    Ternary64::lemma_from_int_trits(n as int);
    Ternary64::lemma_from_int_value(n as int);
}

/// An integer that `m` trits can express is encoded in the `m` lowest
/// positions: every position from `m` up holds 0.
pub proof fn lemma_encoding_width(n: int, m: int)
    requires
        0 <= m <= 64,
        -max_magnitude(m) <= n <= max_magnitude(m),
    ensures
        forall|i: int| m <= i < 64 ==> Ternary64::from_int(n).trit(i) == 0,
{
    Ternary64::lemma_from_int_trits(n);
    lemma_remaining_bound(n, m, m);
    assert forall|i: int| m <= i < 64 implies Ternary64::from_int(n).trit(i) == 0 by {
        lemma_remaining_zero(n, m, i);
    }
}

/// No signed 64-bit integer takes more than 41 trits.
pub proof fn lemma_signed_width(n: i64)
    ensures
        forall|i: int| 41 <= i < 64 ==> Ternary64::from_int(n as int).trit(i) == 0,
{
    lemma_pow3_41();
    lemma_encoding_width(n as int, 41);
}

/// No unsigned 64-bit integer takes more than 42 trits.
pub proof fn lemma_unsigned_width(n: u64)
    ensures
        forall|i: int| 42 <= i < 64 ==> Ternary64::from_int(n as int).trit(i) == 0,
{
    lemma_pow3_42();
    lemma_encoding_width(n as int, 42);
}

/// Negating twice gives back the very masks one started from.
pub proof fn lemma_negate_involution(t: Ternary64)
    ensures
        t.negated().negated() == t,
{
}

/// Negating flips the sign of the value, with or without collisions, and
/// keeps a value without collisions free of them.
pub proof fn lemma_negate_flips_sign(t: Ternary64)
    ensures
        t.negated().value() == -t.value(),
        t.is_normalized() ==> t.negated().is_normalized(),
{
    t.lemma_negated();
}

/// Normalizing a second time changes nothing.
pub proof fn lemma_normalize_idempotent(t: Ternary64)
    ensures
        t.normalized().normalized() == t.normalized(),
{
    t.lemma_normalized();
    t.normalized().lemma_normalized();
}

/// After normalizing, no position is set in both masks.
pub proof fn lemma_normalize_leaves_no_collision(t: Ternary64)
    ensures
        t.normalized().positive & t.normalized().negative == 0,
        forall|i: int| !(bit(t.normalized().positive, i) && bit(t.normalized().negative, i)),
{
    t.lemma_normalized();
    lemma_disjoint_bitwise(t.normalized().positive, t.normalized().negative);
}

/// Normalizing cancels every collision to 0 in both masks and leaves every
/// other position of either mask as it was.
pub proof fn lemma_normalize_cancels_collisions(t: Ternary64)
    ensures
        forall|i: int|
            bit(t.normalized().positive, i) == (bit(t.positive, i) && !bit(t.negative, i)),
        forall|i: int|
            bit(t.normalized().negative, i) == (bit(t.negative, i) && !bit(t.positive, i)),
{
    assert forall|i: int|
        bit(t.normalized().positive, i) == (bit(t.positive, i) && !bit(t.negative, i)) by {
        t.lemma_normalized_bit(i);
    }
    assert forall|i: int|
        bit(t.normalized().negative, i) == (bit(t.negative, i) && !bit(t.positive, i)) by {
        t.lemma_normalized_bit(i);
    }
}

/// Two numerals whose trits below `k` sum to the same hold the same trits
/// below `k`: the highest place at which they differ would outweigh all the
/// places below it.
pub proof fn lemma_equal_sums_equal_trits(a: Ternary64, b: Ternary64, k: int)
    requires
        0 <= k,
        a.partial_value(k) == b.partial_value(k),
    ensures
        forall|i: int| 0 <= i < k ==> a.trit(i) == b.trit(i),
    decreases k,
{
    if k > 0 {
        a.lemma_partial_value_bound(k - 1);
        b.lemma_partial_value_bound(k - 1);
        a.lemma_term(k - 1);
        b.lemma_term(k - 1);
        lemma_pow3_odd(k - 1);
        assert(a.trit(k - 1) == b.trit(k - 1));
        lemma_equal_sums_equal_trits(a, b, k - 1);
    }
}

/// Balanced ternary is unique: two values without collisions that denote
/// the same integer have the same masks.
pub proof fn lemma_representation_unique(a: Ternary64, b: Ternary64)
    requires
        a.is_normalized(),
        b.is_normalized(),
        a.value() == b.value(),
    ensures
        a == b,
{
    lemma_equal_sums_equal_trits(a, b, 64);
    lemma_disjoint_bitwise(a.positive, a.negative);
    lemma_disjoint_bitwise(b.positive, b.negative);
    assert forall|i: int| 0 <= i < 64 implies bit(a.positive, i) == bit(b.positive, i) by {
        assert(a.trit(i) == b.trit(i));
    }
    assert forall|i: int| 0 <= i < 64 implies bit(a.negative, i) == bit(b.negative, i) by {
        assert(a.trit(i) == b.trit(i));
    }
    lemma_equal_bits(a.positive, b.positive);
    lemma_equal_bits(a.negative, b.negative);
}

/// Converting a value without collisions to an integer and back gives the
/// very masks one started from.
pub proof fn lemma_value_round_trip(t: Ternary64)
    requires
        t.is_normalized(),
    ensures
        Ternary64::from_int(t.value()) == t,
{
    t.lemma_value_fits();
    Ternary64::lemma_from_int_trits(t.value());
    Ternary64::lemma_from_int_value(t.value());
    lemma_representation_unique(Ternary64::from_int(t.value()), t);
}

/// A rendering has no leading zero: it is empty, or it starts with `'+'` or
/// `'-'`. It is empty exactly when every trit is 0, and never longer than
/// 64 characters.
pub proof fn lemma_text_is_trimmed(t: Ternary64)
    ensures
        t.text().len() <= 64,
        t.text().len() > 0 ==> t.text()[0] == '+' || t.text()[0] == '-',
        t.text().len() == 0 <==> forall|i: int| 0 <= i < 64 ==> t.trit(i) == 0,
{
    t.lemma_significant_below(64);
    let n: int = t.trit_count();
    if n > 0 {
        assert(t.text()[0] == trit_char(t.trit(n - 1)));
        assert(t.trit(n - 1) != 0);
        assert(-1 <= t.trit(n - 1) <= 1);
    }
}

/// The value with both masks empty denotes 0 and renders as the empty
/// text.
pub proof fn lemma_zero(t: Ternary64)
    requires
        t.positive == 0,
        t.negative == 0,
    ensures
        t.value() == 0,
        t.text() == Seq::<char>::empty(),
{
    assert forall|i: int| t.trit(i) == 0 by {
        lemma_bit_of_zero(i);
    }
    t.lemma_partial_value_extends(0, 64);
    lemma_text_is_trimmed(t);
    assert(t.text() =~= Seq::<char>::empty());
}

} // verus!
