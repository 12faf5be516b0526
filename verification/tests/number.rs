use aart_core::number::{parse_int, parse_number, NumberToken};

fn number(s: &str) -> NumberToken {
    parse_number(s, 0, s.chars().count())
}

#[test]
fn finite_numbers_report_sign_zero_range_and_millionths() {
    assert_eq!(
        number("0.35"),
        NumberToken::Finite { negative: false, zero: false, at_most_one: true, magnitude: 350_000 }
    );
    assert_eq!(
        number("-1"),
        NumberToken::Finite { negative: true, zero: false, at_most_one: true, magnitude: 1_000_000 }
    );
    assert_eq!(
        number("-0.0"),
        NumberToken::Finite { negative: true, zero: true, at_most_one: true, magnitude: 0 }
    );
    match number("1.5") {
        NumberToken::Finite { at_most_one, .. } => assert!(!at_most_one),
        other => panic!("{other:?}"),
    }
    assert_eq!(
        number("0.0000009"),
        NumberToken::Finite { negative: false, zero: false, at_most_one: true, magnitude: 0 }
    );
    assert_eq!(
        number("000001.000000"),
        NumberToken::Finite { negative: false, zero: false, at_most_one: true, magnitude: 1_000_000 }
    );
}

#[test]
fn non_numbers_are_told_apart_from_non_finite_ones() {
    assert_eq!(number("abc"), NumberToken::Invalid);
    assert_eq!(number("+"), NumberToken::Invalid);
    assert_eq!(number("Inf"), NumberToken::NonFinite);
    assert_eq!(number("-nan"), NumberToken::NonFinite);
}

#[test]
fn int_tokens_follow_i32_parsing() {
    let p = |s: &str| parse_int(s, 0, s.chars().count());
    assert_eq!(p("75"), Some(75));
    assert_eq!(p("-2147483648"), Some(i32::MIN));
    assert_eq!(p("2147483648"), None);
    assert_eq!(p("+5"), Some(5));
    assert_eq!(p("-"), None);
    assert_eq!(p("1.0"), None);
}
