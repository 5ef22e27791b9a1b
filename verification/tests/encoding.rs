use ternary::Ternary64;

#[test]
fn small_unsigned_integers_encode_digit_by_digit() {
    let expected: [(u64, u64, u64); 10] = [
        (0, 0x0, 0x0),
        (1, 0x1, 0x0),
        (2, 0x2, 0x1),
        (3, 0x2, 0x0),
        (4, 0x3, 0x0),
        (5, 0x4, 0x3),
        (8, 0x4, 0x1),
        (13, 0x7, 0x0),
        (14, 0x8, 0x7),
        (100, 0x19, 0x4),
    ];
    for (binary, positive, negative) in expected {
        assert_eq!(
            Ternary64::from_unsigned_integer(binary),
            Ternary64 { positive, negative }
        );
    }
}

#[test]
fn small_signed_integers_encode_digit_by_digit() {
    assert_eq!(Ternary64::from_signed_integer(0), Ternary64 { positive: 0, negative: 0 });
    assert_eq!(Ternary64::from_signed_integer(5), Ternary64 { positive: 0x4, negative: 0x3 });
    assert_eq!(Ternary64::from_signed_integer(-1), Ternary64 { positive: 0x0, negative: 0x1 });
    assert_eq!(Ternary64::from_signed_integer(-5), Ternary64 { positive: 0x3, negative: 0x4 });
}

#[test]
fn largest_unsigned_integer_takes_forty_two_trits() {
    let t = Ternary64::from_unsigned_integer(u64::MAX);
    assert_eq!(t, Ternary64 { positive: 0x201_00ce_96c0, negative: 0x1e4_2631_691a });
    assert_eq!(t.to_signed_integer(), 18446744073709551615);
    assert_eq!(t.render().len(), 42);
}

#[test]
fn forty_one_trits_end_at_half_of_three_to_the_forty_one() {
    let last = Ternary64::from_unsigned_integer(18236498188585393201);
    assert_eq!(last, Ternary64 { positive: 0x1ff_ffff_ffff, negative: 0 });
    let next = Ternary64::from_unsigned_integer(18236498188585393202);
    assert_eq!(next, Ternary64 { positive: 0x200_0000_0000, negative: 0x1ff_ffff_ffff });
}

#[test]
fn extreme_signed_integers_round_trip() {
    let top = Ternary64::from_signed_integer(i64::MAX);
    assert_eq!(top, Ternary64 { positive: 0x15c_e299_4189, negative: 0xa0_0464_1452 });
    assert_eq!(top.to_signed_integer(), 9223372036854775807);
    let bottom = Ternary64::from_signed_integer(i64::MIN);
    assert_eq!(bottom, Ternary64 { positive: 0xa0_0464_1451, negative: 0x15c_e299_4188 });
    assert_eq!(bottom.to_signed_integer(), -9223372036854775808);
}

#[test]
fn signed_round_trip_over_a_range() {
    for n in -2000i64..=2000 {
        let t = Ternary64::from_signed_integer(n);
        assert_eq!(t.positive & t.negative, 0);
        assert_eq!(t.to_signed_integer(), n as i128);
    }
}

#[test]
fn unsigned_round_trip_over_samples() {
    let samples: [u64; 8] = [
        0,
        1,
        2,
        3,
        1 << 32,
        0xdead_beef_cafe_f00d,
        u64::MAX - 1,
        u64::MAX,
    ];
    for n in samples {
        let t = Ternary64::from_unsigned_integer(n);
        assert_eq!(t.positive & t.negative, 0);
        assert_eq!(t.to_signed_integer(), n as i128);
    }
}

#[test]
fn value_round_trip_gives_back_the_masks() {
    let t = Ternary64 { positive: 0b1001, negative: 0b0110 };
    let n = t.to_signed_integer();
    assert_eq!(n, 27 - 9 - 3 + 1);
    assert_eq!(Ternary64::from_signed_integer(n as i64), t);
}

#[test]
fn negative_encodes_as_the_negated_magnitude() {
    for n in [1i64, 2, 7, 1000, i64::MAX] {
        assert_eq!(
            Ternary64::from_signed_integer(-n),
            Ternary64::from_signed_integer(n).negate()
        );
    }
}

#[test]
fn from_traits_agree_with_the_named_conversions() {
    assert_eq!(Ternary64::from(14u64), Ternary64 { positive: 0x8, negative: 0x7 });
    assert_eq!(Ternary64::from(-5i64), Ternary64 { positive: 0x3, negative: 0x4 });
    assert_eq!(i128::from(Ternary64::from(u64::MAX)), 18446744073709551615);
    assert_eq!(i128::from(Ternary64::from(i64::MIN)), -9223372036854775808);
    let back: i128 = Ternary64::from(100u64).into();
    assert_eq!(back, 100);
}

#[test]
fn signed_integers_take_at_most_forty_one_trits() {
    for n in [i64::MAX, i64::MIN, 6078832729528464400, -6078832729528464401] {
        let t = Ternary64::from_signed_integer(n);
        assert_eq!((t.positive | t.negative) >> 41, 0);
    }
    assert_eq!(Ternary64::from_signed_integer(i64::MAX).render().len(), 41);
    assert_eq!(Ternary64::from_signed_integer(6078832729528464400).render().len(), 40);
    assert_eq!(Ternary64::from_signed_integer(6078832729528464401).render().len(), 41);
}

#[test]
fn unsigned_integers_take_at_most_forty_two_trits() {
    for n in [u64::MAX, 18236498188585393202, 1 << 63] {
        let t = Ternary64::from_unsigned_integer(n);
        assert_eq!((t.positive | t.negative) >> 42, 0);
    }
}
