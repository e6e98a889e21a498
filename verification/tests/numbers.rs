use cypher_liquidator::number::Number;
use cypher_liquidator::text::parse_u64;

fn num(scaled: u128) -> Number {
    Number { words: [scaled as u64, (scaled >> 64) as u64, 0] }
}

const ONE: u128 = 1_000_000_000_000_000;
const GREATEST: Number = Number { words: [u64::MAX, u64::MAX, u64::MAX] };

#[test]
fn sum_and_difference() {
    assert_eq!(num(5 * ONE).checked_plus(num(ONE / 2)), Some(num(11 * ONE / 2)));
    assert_eq!(GREATEST.checked_plus(num(0)), Some(GREATEST));
    assert_eq!(GREATEST.checked_plus(num(1)), None);
    assert_eq!(num(5).checked_minus(num(3)), Some(num(2)));
    assert_eq!(num(3).checked_minus(num(5)), None);
    assert_eq!(
        num(u64::MAX as u128).checked_plus(num(1)),
        Some(Number { words: [0, 1, 0] })
    );
}

#[test]
fn products_round_down() {
    assert_eq!(num(3 * ONE / 2).checked_times(num(5 * ONE / 2)), Some(num(15 * ONE / 4)));
    assert_eq!(num(3).checked_times(num(ONE / 2)), Some(num(1)));
    assert_eq!(num(3).checked_times_u64(7), Some(num(21)));
    assert_eq!(GREATEST.checked_times_u64(1), Some(GREATEST));
    assert_eq!(GREATEST.checked_times_u64(2), None);
    assert_eq!(GREATEST.checked_times(num(2)), None);
    assert_eq!(GREATEST.checked_times_u64(0), Some(num(0)));
}

#[test]
fn quotients_round_down() {
    assert_eq!(num(10 * ONE).checked_over(num(4 * ONE)), Some(num(5 * ONE / 2)));
    assert_eq!(num(ONE).checked_over(num(3 * ONE)), Some(num(333_333_333_333_333)));
    assert_eq!(num(ONE).checked_over(num(0)), None);
    assert_eq!(GREATEST.checked_over(num(ONE)), None);
    assert_eq!(num(10).checked_over_u64(3), Some(num(3)));
    assert_eq!(num(10).checked_over_u64(0), None);
}

#[test]
fn whole_numbers() {
    assert_eq!(num(7 * ONE + 1).checked_whole(), Some(7));
    assert_eq!(num(7 * ONE + 1).checked_whole_ceil(), Some(8));
    assert_eq!(num(7 * ONE).checked_whole_ceil(), Some(7));
    let top = u64::MAX as u128 * ONE;
    assert_eq!(num(top).checked_whole(), Some(u64::MAX));
    assert_eq!(num(top + ONE - 1).checked_whole(), Some(u64::MAX));
    assert_eq!(num(top + ONE).checked_whole(), None);
    assert_eq!(num(top).checked_whole_ceil(), Some(u64::MAX));
    assert_eq!(num(top + 1).checked_whole_ceil(), None);
    assert_eq!(GREATEST.checked_whole_ceil(), None);
}

#[test]
fn order() {
    assert!(num(1).below(num(2)));
    assert!(!num(2).below(num(2)));
    assert!(num(u64::MAX as u128).below(Number { words: [0, 1, 0] }));
    assert_eq!(num(4).lesser_of(num(3)), num(3));
    assert_eq!(Number::default(), Number::zero());
}

#[test]
fn same_as_the_number_crate() {
    let a = jet_proto_math::Number::from_decimal(123_456_789u64, -4);
    let b = jet_proto_math::Number::from_decimal(98_765u64, -3);
    let words = |n: jet_proto_math::Number| Number { words: bytemuck::cast(n) };
    assert_eq!(words(a).checked_times(words(b)), Some(words(a * b)));
    assert_eq!(words(a).checked_over(words(b)), Some(words(a / b)));
}

#[test]
fn decimal_text() {
    assert_eq!(parse_u64("0"), Some(0));
    assert_eq!(parse_u64("+42"), Some(42));
    assert_eq!(parse_u64("0007"), Some(7));
    assert_eq!(parse_u64("18446744073709551615"), Some(u64::MAX));
    assert_eq!(parse_u64("18446744073709551616"), None);
    assert_eq!(parse_u64("99999999999999999999999"), None);
    for text in ["", "+", "-1", " 1", "1 ", "1.0", "++1", "\u{661}"] {
        assert_eq!(parse_u64(text), None);
        assert!(text.parse::<u64>().is_err());
    }
}
