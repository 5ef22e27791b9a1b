use ternary::Ternary64;

#[test]
fn zero_renders_as_the_empty_string() {
    let zero = Ternary64 { positive: 0, negative: 0 };
    assert_eq!(zero.render(), "");
    assert_eq!(zero.to_signed_integer(), 0);
}

#[test]
fn worked_example_renders_most_significant_first() {
    let t = Ternary64 { positive: 0b10, negative: 0b01 };
    assert_eq!(t.render(), "+-");
}

#[test]
fn zero_padding_fills_to_the_width() {
    let t = Ternary64 { positive: 0b10, negative: 0b01 };
    assert_eq!(t.render_padded(6, false), "0000+-");
    assert_eq!(t.render_padded(3, false), "0+-");
}

#[test]
fn prefix_counts_toward_the_width() {
    let t = Ternary64 { positive: 0b10, negative: 0b01 };
    assert_eq!(t.render_padded(6, true), "0t00+-");
    assert_eq!(t.render_padded(5, true), "0t0+-");
    assert_eq!(t.render_padded(4, true), "0t+-");
}

#[test]
fn narrow_width_adds_no_padding() {
    let t = Ternary64 { positive: 0b10, negative: 0b01 };
    assert_eq!(t.render_padded(0, false), "+-");
    assert_eq!(t.render_padded(2, false), "+-");
    assert_eq!(t.render_padded(0, true), "0t+-");
    assert_eq!(t.render_padded(3, true), "0t+-");
}

#[test]
fn padded_zero_is_all_fill() {
    let zero = Ternary64 { positive: 0, negative: 0 };
    assert_eq!(zero.render_padded(0, false), "");
    assert_eq!(zero.render_padded(3, false), "000");
    assert_eq!(zero.render_padded(0, true), "0t");
    assert_eq!(zero.render_padded(4, true), "0t00");
}

#[test]
fn inner_zeros_are_kept() {
    assert_eq!(Ternary64 { positive: 0b100, negative: 0b001 }.render(), "+0-");
    assert_eq!(Ternary64 { positive: 0b10, negative: 0 }.render(), "+0");
    assert_eq!(Ternary64 { positive: 0x19, negative: 0x4 }.render(), "++-0+");
}

#[test]
fn collision_renders_as_zero() {
    assert_eq!(Ternary64 { positive: 0b101, negative: 0b001 }.render(), "+00");
    assert_eq!(Ternary64 { positive: 0b1, negative: 0b1 }.render(), "");
}

#[test]
fn leading_collision_is_trimmed() {
    let t = Ternary64 {
        positive: 0x8000_0000_0000_0001,
        negative: 0x8000_0000_0000_0000,
    };
    assert_eq!(t.render(), "+");
}

#[test]
fn full_width_value_renders_sixty_four_trits() {
    let t = Ternary64 { positive: 1u64 << 63, negative: 1 };
    let text = t.render();
    assert_eq!(text.len(), 64);
    let mut expected = String::from("+");
    for _ in 0..62 {
        expected.push('0');
    }
    expected.push('-');
    assert_eq!(text, expected);
    assert_eq!(t.render_padded(10, true).len(), 66);
}

#[test]
fn rendering_never_starts_with_zero() {
    for n in -500i64..=500 {
        let text = Ternary64::from_signed_integer(n).render();
        if n == 0 {
            assert_eq!(text, "");
        } else if n > 0 {
            assert!(text.starts_with('+'));
        } else {
            assert!(text.starts_with('-'));
        }
    }
}

#[test]
fn largest_integers_render_in_full() {
    assert_eq!(
        Ternary64::from_unsigned_integer(u64::MAX).render(),
        "+----00-0+00-00--0++--+++-+--+-++-++0--0-0"
    );
    assert_eq!(
        Ternary64::from_signed_integer(i64::MAX).render(),
        "+-+-+++00+++00-+0+--++-0+0+0-0-0++-0-+0-+"
    );
    assert_eq!(
        Ternary64::from_signed_integer(i64::MIN).render(),
        "-+-+---00---00+-0-++--+0-0-0+0+0--+0+-00+"
    );
}

#[test]
fn negation_swaps_the_signs_in_the_text() {
    let t = Ternary64 { positive: 0x19, negative: 0x4 };
    assert_eq!(t.negate().render(), "--+0-");
}
