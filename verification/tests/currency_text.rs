use payments::currency::{from_float_string, to_float_string, Currency};
use payments::decimal::ParseAmountError;

#[test]
fn an_empty_text_reads_as_zero() {
    assert_eq!(from_float_string(""), Ok(Currency(0)));
}

#[test]
fn plain_numbers_are_scaled_to_minor_units() {
    assert_eq!(from_float_string("5"), Ok(Currency(50000)));
    assert_eq!(from_float_string("5.0"), Ok(Currency(50000)));
    assert_eq!(from_float_string("2.5"), Ok(Currency(25000)));
    assert_eq!(from_float_string("25.0"), Ok(Currency(250000)));
    assert_eq!(from_float_string("0"), Ok(Currency(0)));
    assert_eq!(from_float_string("0.0001"), Ok(Currency(1)));
    assert_eq!(from_float_string("0.0003"), Ok(Currency(3)));
    assert_eq!(from_float_string("1.1005"), Ok(Currency(11005)));
    assert_eq!(from_float_string("007.25"), Ok(Currency(72500)));
    assert_eq!(from_float_string("1234567.8901"), Ok(Currency(12345678901)));
}

#[test]
fn a_sign_may_lead() {
    assert_eq!(from_float_string("-2.5"), Ok(Currency(-25000)));
    assert_eq!(from_float_string("+2.5"), Ok(Currency(25000)));
    assert_eq!(from_float_string("-0"), Ok(Currency(0)));
    assert_eq!(from_float_string("-0.0001"), Ok(Currency(-1)));
}

#[test]
fn either_side_of_the_point_may_be_empty_but_not_both() {
    assert_eq!(from_float_string(".5"), Ok(Currency(5000)));
    assert_eq!(from_float_string("5."), Ok(Currency(50000)));
    assert_eq!(from_float_string("-.25"), Ok(Currency(-2500)));
    assert_eq!(from_float_string("."), Err(ParseAmountError));
    assert_eq!(from_float_string("-."), Err(ParseAmountError));
    assert_eq!(from_float_string("-"), Err(ParseAmountError));
    assert_eq!(from_float_string("+"), Err(ParseAmountError));
}

#[test]
fn digits_behind_the_fourth_are_cut_off() {
    assert_eq!(from_float_string("1.23456"), Ok(Currency(12345)));
    assert_eq!(from_float_string("1.99999999"), Ok(Currency(19999)));
    assert_eq!(from_float_string("0.00019"), Ok(Currency(1)));
    assert_eq!(from_float_string("-0.00019"), Ok(Currency(-1)));
    assert_eq!(from_float_string("0.00009"), Ok(Currency(0)));
}

#[test]
fn what_is_no_number_is_refused() {
    for text in [
        "abc", "five", "1e3", "inf", "nan", " 5", "5 ", "1,5", "1.2.3", "--1", "+-1", "1-", "0x10",
        "١٢", "1.5x", "x1.5", "1_000",
    ] {
        assert_eq!(from_float_string(text), Err(ParseAmountError), "{:?}", text);
    }
}

#[test]
fn numbers_out_of_range_read_as_the_nearest_amount() {
    assert_eq!(from_float_string("922337203685477.5807"), Ok(Currency(i64::MAX)));
    assert_eq!(from_float_string("922337203685477.5808"), Ok(Currency(i64::MAX)));
    assert_eq!(from_float_string("922337203685477.5806"), Ok(Currency(i64::MAX - 1)));
    assert_eq!(from_float_string("-922337203685477.5808"), Ok(Currency(i64::MIN)));
    assert_eq!(from_float_string("-922337203685477.5807"), Ok(Currency(i64::MIN + 1)));
    assert_eq!(from_float_string("-922337203685477.5809"), Ok(Currency(i64::MIN)));
    assert_eq!(from_float_string("922337203685478"), Ok(Currency(i64::MAX)));
    assert_eq!(
        from_float_string("99999999999999999999999999999999999999999999"),
        Ok(Currency(i64::MAX))
    );
    assert_eq!(
        from_float_string("-99999999999999999999999999999999999999999999.5"),
        Ok(Currency(i64::MIN))
    );
    assert_eq!(from_float_string("18446744073709551616"), Ok(Currency(i64::MAX)));
    assert_eq!(from_float_string("1844674407370955.1616"), Ok(Currency(i64::MAX)));
}

#[test]
fn amounts_are_written_with_four_digits_behind_the_point() {
    assert_eq!(to_float_string(&Currency(25000)), "2.5000");
    assert_eq!(to_float_string(&Currency(50000)), "5.0000");
    assert_eq!(to_float_string(&Currency(0)), "0.0000");
    assert_eq!(to_float_string(&Currency(1)), "0.0001");
    assert_eq!(to_float_string(&Currency(-5)), "-0.0005");
    assert_eq!(to_float_string(&Currency(-25000)), "-2.5000");
    assert_eq!(to_float_string(&Currency(12345678901)), "1234567.8901");
    assert_eq!(to_float_string(&Currency(100000)), "10.0000");
    assert_eq!(to_float_string(&Currency(9999)), "0.9999");
    assert_eq!(to_float_string(&Currency(i64::MAX)), "922337203685477.5807");
    assert_eq!(to_float_string(&Currency(i64::MIN)), "-922337203685477.5808");
}

#[test]
fn what_is_written_reads_back() {
    for units in [
        0i64, 1, -1, 9, 10, 9999, 10000, 10001, -10000, 25000, 123456789, -987654321,
        i64::MAX, i64::MIN, i64::MAX - 1, i64::MIN + 1,
    ] {
        let text = to_float_string(&Currency(units));
        assert_eq!(from_float_string(&text), Ok(Currency(units)), "{}", text);
    }
}
