use candle_feed::amount::{parse_amount, parse_wide_amount, AMOUNT_DECIMALS, AMOUNT_SCALE};

#[test]
fn scale_has_eight_decimals() {
    assert_eq!(AMOUNT_SCALE, 10_i64.pow(AMOUNT_DECIMALS as u32));
}

#[test]
fn whole_numbers() {
    assert_eq!(parse_amount("0"), Some(0));
    assert_eq!(parse_amount("1"), Some(100_000_000));
    assert_eq!(parse_amount("100"), Some(10_000_000_000));
    assert_eq!(parse_amount("007"), Some(700_000_000));
}

#[test]
fn decimals_are_filled_up_to_eight_places() {
    assert_eq!(parse_amount("0.01634790"), Some(1_634_790));
    assert_eq!(parse_amount("1.5"), Some(150_000_000));
    assert_eq!(parse_amount("27123.45"), Some(2_712_345_000_000));
    assert_eq!(parse_amount("0.00000001"), Some(1));
    assert_eq!(parse_amount("12.00000000"), Some(1_200_000_000));
}

#[test]
fn negative_amounts() {
    assert_eq!(parse_amount("-1"), Some(-100_000_000));
    assert_eq!(parse_amount("-0.5"), Some(-50_000_000));
    assert_eq!(parse_amount("-0"), Some(0));
}

#[test]
fn the_ends_of_the_range() {
    assert_eq!(parse_amount("92233720368.54775807"), Some(i64::MAX));
    assert_eq!(parse_amount("92233720368.54775808"), None);
    assert_eq!(parse_amount("-92233720368.54775808"), Some(i64::MIN));
    assert_eq!(parse_amount("-92233720368.54775809"), None);
    assert_eq!(parse_amount("92233720369"), None);
    assert_eq!(parse_amount("99999999999999999999999999999999999999999999"), None);
    assert_eq!(
        parse_amount("0000000000000000000000000000000000000000000000000001.25"),
        Some(125_000_000)
    );
}

#[test]
fn what_is_no_amount() {
    for text in [
        "", "-", ".", ".5", "5.", "-.5", "+1", "1e5", "1.5e3", " 1", "1 ", "1,5", "1.2.3", "--1",
        "1-", "0x10", "inf", "NaN", "1.123456789", "1.a", "a", "１",
    ] {
        assert_eq!(parse_amount(text), None, "{:?}", text);
    }
}

#[test]
fn wide_amounts_reach_beyond_64_bits() {
    assert_eq!(parse_wide_amount("1.5"), Some(150_000_000));
    assert_eq!(parse_wide_amount("-0.00000001"), Some(-1));
    assert_eq!(parse_wide_amount("92233720368.54775808"), Some(i64::MAX as i128 + 1));
    assert_eq!(
        parse_wide_amount("5000000000000.25"),
        Some(500_000_000_000_025_000_000)
    );
}

#[test]
fn the_ends_of_the_wide_range() {
    assert_eq!(
        parse_wide_amount("1701411834604692317316873037158.84105727"),
        Some(i128::MAX)
    );
    assert_eq!(parse_wide_amount("1701411834604692317316873037158.84105728"), None);
    assert_eq!(
        parse_wide_amount("-1701411834604692317316873037158.84105728"),
        Some(i128::MIN)
    );
    assert_eq!(parse_wide_amount("-1701411834604692317316873037158.84105729"), None);
    assert_eq!(parse_wide_amount("3402823669209384634633746074317.68211455"), None);
    assert_eq!(parse_wide_amount("3402823669209384634633746074317.68211456"), None);
    assert_eq!(parse_wide_amount("99999999999999999999999999999999999999999999"), None);
    assert_eq!(
        parse_wide_amount("0000000000000000000000000000000000000000000000000001.25"),
        Some(125_000_000)
    );
}

#[test]
fn what_is_no_wide_amount() {
    for text in ["", "-", ".", ".5", "5.", "+1", "1e5", " 1", "1.123456789", "a"] {
        assert_eq!(parse_wide_amount(text), None, "{:?}", text);
    }
}
