use ternary::Ternary64;

#[test]
fn debug() {
    let ternary = Ternary64 {
        positive: 0b10,
        negative: 0b01,
    };
    println!("{}", ternary.render_padded(6, false));
    assert_eq!(i128::from(ternary), 2);
}

#[test]
fn zero_masks_denote_zero() {
    let zero = Ternary64 { positive: 0, negative: 0 };
    assert_eq!(zero.to_signed_integer(), 0);
    assert_eq!(i128::from(zero), 0);
}

#[test]
fn single_trits_weigh_powers_of_three() {
    let mut weight: i128 = 1;
    for i in 0..64 {
        let plus = Ternary64 { positive: 1u64 << i, negative: 0 };
        let minus = Ternary64 { positive: 0, negative: 1u64 << i };
        assert_eq!(plus.to_signed_integer(), weight);
        assert_eq!(minus.to_signed_integer(), -weight);
        weight *= 3;
    }
    assert_eq!(weight, 3433683820292512484657849089281);
}

#[test]
fn worked_example_is_three_minus_one() {
    let t = Ternary64 { positive: 0b10, negative: 0b01 };
    assert_eq!(t.to_signed_integer(), 3 - 1);
}

#[test]
fn all_trits_plus_is_the_largest_value() {
    let top = Ternary64 { positive: u64::MAX, negative: 0 };
    assert_eq!(top.to_signed_integer(), 1716841910146256242328924544640);
    let bottom = Ternary64 { positive: 0, negative: u64::MAX };
    assert_eq!(bottom.to_signed_integer(), -1716841910146256242328924544640);
}

#[test]
fn collision_adds_nothing_to_the_value() {
    let one_collision = Ternary64 { positive: 0b1, negative: 0b1 };
    assert_eq!(one_collision.to_signed_integer(), 0);
    let mixed = Ternary64 { positive: 0b11, negative: 0b01 };
    assert_eq!(mixed.to_signed_integer(), 3);
    let all = Ternary64 { positive: u64::MAX, negative: u64::MAX };
    assert_eq!(all.to_signed_integer(), 0);
}

#[test]
fn value_of_a_high_trit_alone() {
    let t = Ternary64 { positive: 1u64 << 63, negative: 1 };
    assert_eq!(t.to_signed_integer(), 1144561273430837494885949696427 - 1);
}

#[test]
fn conversion_leaves_the_receiver_usable() {
    let t = Ternary64 { positive: 0b100, negative: 0b011 };
    assert_eq!(t.to_signed_integer(), 5);
    assert_eq!(t.to_signed_integer(), 5);
    assert_eq!(t, Ternary64 { positive: 0b100, negative: 0b011 });
}
