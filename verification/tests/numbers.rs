use ark_holdings::text::{derive_price, parse_money, parse_price, parse_shares, parse_weight};

#[test]
fn money_strips_currency_and_separators() {
    assert_eq!(parse_money("$1,234"), Some(1234));
    assert_eq!(parse_money("1234"), Some(1234));
    assert_eq!(parse_money("1,234.56"), Some(1234));
    assert_eq!(parse_money("-$1,234.99"), Some(-1234));
    assert_eq!(parse_money("$$1"), None);
    assert_eq!(parse_money(""), None);
    assert_eq!(parse_money("abc"), None);
    assert_eq!(parse_money("12a4"), None);
}

#[test]
fn weight_strips_percent_and_scales() {
    assert_eq!(parse_weight("12.34%"), Some(123400));
    assert_eq!(parse_weight("12.34"), Some(123400));
    assert_eq!(parse_weight("0.5"), Some(5000));
    assert_eq!(parse_weight("100"), Some(1000000));
    assert_eq!(parse_weight("1.23456"), Some(12345));
    assert_eq!(parse_weight("-2.5%"), Some(-25000));
    assert_eq!(parse_weight("n/a"), None);
}

#[test]
fn shares_accept_integers_only() {
    assert_eq!(parse_shares("1,000"), Some(1000));
    assert_eq!(parse_shares("10"), Some(10));
    assert_eq!(parse_shares("-7"), Some(-7));
    assert_eq!(parse_shares("10.5"), None);
    assert_eq!(parse_shares(""), None);
    assert_eq!(parse_shares("ten"), None);
}

#[test]
fn price_scales_to_hundredths() {
    assert_eq!(parse_price("123.45"), Some(12345));
    assert_eq!(parse_price("1,000"), Some(100000));
    assert_eq!(parse_price("0.1"), Some(10));
}

#[test]
fn derived_price_rounds_half_away_from_zero() {
    // 1234 / 10 = 123.40
    assert_eq!(derive_price(1234, 10), Some(12340));
    // 10 / 3 = 3.3333... -> 3.33
    assert_eq!(derive_price(10, 3), Some(333));
    // 1 / 8 = 0.125 -> 0.13
    assert_eq!(derive_price(1, 8), Some(13));
    assert_eq!(derive_price(-1, 8), Some(-13));
    assert_eq!(derive_price(5, 0), None);
}
