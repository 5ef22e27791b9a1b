//! Single bits of a 64-bit mask, and the facts about shifts and masks that
//! the ternary encoding rests on.

use vstd::prelude::*;

verus! {

/// Whether bit `i` of `word` is set. Bit 0 is the least significant one;
/// positions outside `0..64` hold no bit.
pub open spec fn bit(word: u64, i: int) -> bool {
    0 <= i < 64 && (word >> (i as u64)) & 1 == 1
}

/// The word with only bit `i` set.
pub open spec fn one_hot(i: int) -> u64 {
    1u64 << (i as u64)
}

/// The empty mask has no bit set.
pub proof fn lemma_bit_of_zero(i: int)
    ensures
        !bit(0, i),
{
    if 0 <= i < 64 {
        let s: u64 = i as u64;
        assert((0u64 >> s) & 1 == 0) by (bit_vector);
    }
}

/// The lowest bit of a word shifted right by `k` is bit `k` of the word.
pub proof fn lemma_bit_of_shifted(word: u64, k: int)
    requires
        0 <= k < 64,
    ensures
        bit(word, k) == ((word >> (k as u64)) & 1 == 1),
        (word >> (k as u64)) >> 1 == word >> ((k + 1) as u64),
{
    let s: u64 = k as u64;
    let t: u64 = (k + 1) as u64;
    assert((word >> s) >> 1 == word >> t) by (bit_vector)
        requires
            s < 64,
            t == s + 1,
    ;
}

/// Shifting a word right by zero places leaves it, and by all 64 places
/// empties it.
pub proof fn lemma_shift_ends(word: u64)
    ensures
        word >> 0u64 == word,
        word >> 64u64 == 0,
{
    assert(word >> 0u64 == word) by (bit_vector);
    assert(word >> 64u64 == 0) by (bit_vector);
}

/// Once a word shifted right by `k` is zero, it has no bit at `k` or above.
pub proof fn lemma_no_bit_above(word: u64, k: int, i: int)
    requires
        0 <= k <= i,
        k <= 64,
        word >> (k as u64) == 0,
    ensures
        !bit(word, i),
{
    if i < 64 {
        let s: u64 = k as u64;
        let t: u64 = i as u64;
        assert((word >> t) & 1 == 0) by (bit_vector)
            requires
                s <= t < 64,
                word >> s == 0,
        ;
    }
}

/// Two words are both zero exactly when their union is.
pub proof fn lemma_union_zero(a: u64, b: u64)
    ensures
        (a | b) == 0 <==> a == 0 && b == 0,
{
    assert((a | b) == 0 <==> a == 0 && b == 0) by (bit_vector);
}

/// Setting bit `j` in a word changes bit `j` and no other.
pub proof fn lemma_bit_of_union_with_one_hot(word: u64, j: int, i: int)
    requires
        0 <= j < 64,
    ensures
        bit(word | one_hot(j), i) == (bit(word, i) || i == j),
{
    if 0 <= i < 64 {
        let s: u64 = j as u64;
        let t: u64 = i as u64;
        assert((((word | (1u64 << s)) >> t) & 1 == 1) == (((word >> t) & 1 == 1) || t == s))
            by (bit_vector)
            requires
                s < 64,
                t < 64,
        ;
    }
}

/// Two masks share no position exactly when no bit is set in both.
pub proof fn lemma_disjoint_bitwise(a: u64, b: u64)
    ensures
        a & b == 0 <==> forall|i: int| !(bit(a, i) && bit(b, i)),
{
    if a & b == 0 {
        assert forall|i: int| !(bit(a, i) && bit(b, i)) by {
            if 0 <= i < 64 {
                let t: u64 = i as u64;
                assert(!((a >> t) & 1 == 1 && (b >> t) & 1 == 1)) by (bit_vector)
                    requires
                        t < 64,
                        a & b == 0,
                ;
            }
        }
    } else {
        let c: u64 = a & b;
        let i: int = lemma_some_bit_set(c);
        let t: u64 = i as u64;
        assert((a >> t) & 1 == 1 && (b >> t) & 1 == 1) by (bit_vector)
            requires
                t < 64,
                c == a & b,
                (c >> t) & 1 == 1,
        ;
        assert(bit(a, i) && bit(b, i));
    }
}

/// A word that is not zero has a bit set; the position of one is returned.
pub proof fn lemma_some_bit_set(word: u64) -> (i: int)
    requires
        word != 0,
    ensures
        bit(word, i),
{
    lemma_shift_ends(word);
    lemma_some_bit_set_from(word, 0)
}

/// A word that is not zero once shifted right by `k` has a bit set at `k`
/// or above.
proof fn lemma_some_bit_set_from(word: u64, k: int) -> (i: int)
    requires
        0 <= k <= 64,
        word >> (k as u64) != 0,
    ensures
        k <= i,
        bit(word, i),
    decreases 64 - k,
{
    lemma_shift_ends(word);
    assert(k < 64);
    if bit(word, k) {
        k
    } else {
        let s: u64 = k as u64;
        let t: u64 = (k + 1) as u64;
        assert(word >> t != 0) by (bit_vector)
            requires
                s < 64,
                t == s + 1,
                word >> s != 0,
                (word >> s) & 1 != 1,
        ;
        lemma_some_bit_set_from(word, k + 1)
    }
}

/// Two words with the same bits are the same word.
pub proof fn lemma_equal_bits(a: u64, b: u64)
    requires
        forall|i: int| 0 <= i < 64 ==> bit(a, i) == bit(b, i),
    ensures
        a == b,
{
    if a != b {
        let x: u64 = a ^ b;
        assert(x != 0) by (bit_vector)
            requires
                a != b,
                x == a ^ b,
        ;
        let i: int = lemma_some_bit_set(x);
        let t: u64 = i as u64;
        assert(((a >> t) & 1 == 1) != ((b >> t) & 1 == 1)) by (bit_vector)
            requires
                t < 64,
                x == a ^ b,
                (x >> t) & 1 == 1,
        ;
        assert(bit(a, i) != bit(b, i));
    }
}

} // verus!
