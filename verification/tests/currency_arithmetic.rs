use payments::currency;
use payments::currency::Currency;

#[test]
fn add_sums_minor_units() {
    assert_eq!(currency::add(Currency(50000), Currency(25000)), Currency(75000));
    assert_eq!(currency::add(Currency(-3), Currency(1)), Currency(-2));
    assert_eq!(currency::add(Currency(0), Currency(0)), Currency(0));
}

#[test]
fn add_wraps_around_at_the_ends_of_the_range() {
    assert_eq!(currency::add(Currency(i64::MAX), Currency(1)), Currency(i64::MIN));
    assert_eq!(currency::add(Currency(i64::MIN), Currency(-1)), Currency(i64::MAX));
    assert_eq!(currency::add(Currency(i64::MAX), Currency(i64::MAX)), Currency(-2));
}

#[test]
fn unsafe_subtract_may_go_below_zero() {
    assert_eq!(currency::unsafe_subtract(Currency(50000), Currency(20000)), Currency(30000));
    assert_eq!(currency::unsafe_subtract(Currency(0), Currency(50000)), Currency(-50000));
    assert_eq!(currency::unsafe_subtract(Currency(i64::MIN), Currency(1)), Currency(i64::MAX));
}

#[test]
fn safe_subtract_verbose_is_present_only_when_covered() {
    assert_eq!(
        currency::safe_subtract_verbose(Currency(50000), Currency(25000)),
        Some(Currency(25000))
    );
    assert_eq!(currency::safe_subtract_verbose(Currency(7), Currency(7)), Some(Currency(0)));
    assert_eq!(currency::safe_subtract_verbose(Currency(25000), Currency(250000)), None);
    assert_eq!(currency::safe_subtract_verbose(Currency(-1), Currency(0)), None);
    assert_eq!(currency::safe_subtract_verbose(Currency(0), Currency(-4)), Some(Currency(4)));
}

#[test]
fn safe_subtract_silent_keeps_the_amount_when_not_covered() {
    assert_eq!(currency::safe_subtract_silent(Currency(50000), Currency(25000)), Currency(25000));
    assert_eq!(currency::safe_subtract_silent(Currency(25000), Currency(250000)), Currency(25000));
    assert_eq!(currency::safe_subtract_silent(Currency(3), Currency(3)), Currency(0));
}

#[test]
fn adding_and_subtracting_cancel() {
    for (x, y) in [(5i64, 7i64), (i64::MAX, 9), (i64::MIN, -9), (-40, i64::MAX), (0, i64::MIN)] {
        let sum = currency::add(Currency(x), Currency(y));
        assert_eq!(currency::unsafe_subtract(sum, Currency(y)), Currency(x));
        let difference = currency::unsafe_subtract(Currency(x), Currency(y));
        assert_eq!(currency::add(difference, Currency(y)), Currency(x));
    }
}
