use crate::decimal::{decimal_text, reading, unsigned, ParseAmountError};
use vstd::prelude::*;
use vstd::string::StringExecFns;

verus! {

/// An amount of money, counted in minor units: ten thousandths of the display
/// unit. Amounts are values: every operation gives a new amount.
#[derive(Eq, PartialEq, Debug, Clone, Copy)]
pub struct Currency(pub i64);

impl Currency {
    /// The amount of nothing.
    pub open spec fn zero() -> Currency {
        Currency(0)
    }

    /// The sum of two amounts. Amounts are 64-bit two's complement numbers:
    /// the sum is the exact one where that fits in an `i64`, and wraps around
    /// where it does not.
    pub open spec fn plus(self, other: Currency) -> Currency {
        Currency(self.0.wrapping_add(other.0))
    }

    /// The difference of two amounts, wrapping around as `plus` does.
    pub open spec fn minus(self, other: Currency) -> Currency {
        Currency(self.0.wrapping_sub(other.0))
    }

    /// The amount that an exact count of minor units, however large, wraps
    /// around to: the count itself where it fits in an `i64`, and otherwise
    /// the one number in that range that differs from it by a multiple of
    /// 2^64.
    pub open spec fn wrapped(units: int) -> Currency {
        let low = units % 0x1_0000_0000_0000_0000;
        if low > i64::MAX {
            Currency((low - 0x1_0000_0000_0000_0000) as i64)
        } else {
            Currency(low as i64)
        }
    }

    /// Whether `other` can be taken out of this amount: it is no larger.
    pub open spec fn covers(self, other: Currency) -> bool {
        self.0 >= other.0
    }
}

/// Adds two amounts. Never fails.
pub fn add(x: Currency, y: Currency) -> (sum: Currency)
    ensures
        sum == x.plus(y),
{
    Currency(x.0.wrapping_add(y.0))
}

/// Subtracts `y` from `x` without asking whether `x` covers it: the
/// difference may be negative.
pub fn unsafe_subtract(x: Currency, y: Currency) -> (difference: Currency)
    ensures
        difference == x.minus(y),
{
    Currency(x.0.wrapping_sub(y.0))
}

/// Subtracts `y` from `x` where `x` covers it, and gives nothing where it does
/// not.
pub fn safe_subtract_verbose(x: Currency, y: Currency) -> (difference: Option<Currency>)
    ensures
        difference == (if x.covers(y) {
            Some(x.minus(y))
        } else {
            None
        }),
{
    if x.0 >= y.0 {
        Some(Currency(x.0.wrapping_sub(y.0)))
    } else {
        None
    }
}

/// Subtracts `y` from `x` where `x` covers it, and gives `x` back unchanged
/// where it does not.
pub fn safe_subtract_silent(x: Currency, y: Currency) -> (rest: Currency)
    ensures
        rest == (if x.covers(y) {
            x.minus(y)
        } else {
            x
        }),
{
    if x.0 >= y.0 {
        Currency(x.0.wrapping_sub(y.0))
    } else {
        x
    }
}

/// Reads an amount written in display units. An empty text is no amount at
/// all, and reads as zero. Otherwise the text must be a number in decimal
/// notation: an optional sign, digits, and optionally a point and more
/// digits. Digits behind the fourth after the point are cut off, and a
/// number too large for an amount reads as the largest amount, one too small
/// as the smallest.
pub fn from_float_string(text: &str) -> (amount: Result<Currency, ParseAmountError>)
    ensures
        amount == reading(text@),
{
    let chars = crate::decimal::characters(text);
    if chars.len() == 0 {
        return Ok(Currency(0));
    }
    let negative = chars[0] == '-';
    let start: usize = if chars[0] == '-' || chars[0] == '+' {
        1
    } else {
        0
    };
    assert(unsigned(text@) =~= chars@.skip(start as int));
    match crate::decimal::read_number(&chars, start) {
        None => Err(ParseAmountError),
        Some(size) => if negative {
            if size >= 0x8000_0000_0000_0000 {
                Ok(Currency(i64::MIN))
            } else {
                Ok(Currency(-(size as i64)))
            }
        } else {
            if size > 0x7fff_ffff_ffff_ffff {
                Ok(Currency(i64::MAX))
            } else {
                Ok(Currency(size as i64))
            }
        },
    }
}

/// Writes an amount in display units, with exactly four digits behind the
/// point: `2.5000` for 25000 minor units, `-0.0005` for -5.
pub fn to_float_string(x: &Currency) -> (text: String)
    ensures
        text@ == decimal_text(x.0 as int),
{
    let mut text = String::new();
    let size: u64 = if x.0 < 0 {
        proof {
            reveal_strlit("-");
        }
        text.append("-");
        (-(x.0 + 1)) as u64 + 1
    } else {
        x.0 as u64
    };
    let rest = size % 10000;
    crate::decimal::write_numeral(&mut text, size / 10000);
    proof {
        reveal_strlit(".");
    }
    text.append(".");
    text.append(crate::decimal::digit_text((rest / 1000) % 10));
    text.append(crate::decimal::digit_text((rest / 100) % 10));
    text.append(crate::decimal::digit_text((rest / 10) % 10));
    text.append(crate::decimal::digit_text(rest % 10));
    assert(text@ =~= decimal_text(x.0 as int));
    text
}

/// Where the exact sum of two amounts fits in an `i64`, `plus` is that sum,
/// and likewise `minus` and the exact difference. In any case they are the
/// exact sum and difference, wrapped around.
pub proof fn lemma_plus_and_minus_are_exact_in_range(x: Currency, y: Currency)
    ensures
        i64::MIN <= x.0 + y.0 <= i64::MAX ==> x.plus(y).0 == x.0 + y.0,
        i64::MIN <= x.0 - y.0 <= i64::MAX ==> x.minus(y).0 == x.0 - y.0,
        x.plus(y) == Currency::wrapped(x.0 + y.0),
        x.minus(y) == Currency::wrapped(x.0 - y.0),
{
}

/// A count of minor units that fits in an `i64` is not changed by wrapping.
pub proof fn lemma_wrapped_is_exact_in_range(units: int)
    requires
        i64::MIN <= units <= i64::MAX,
    ensures
        Currency::wrapped(units) == Currency(units as i64),
{
}

/// Sums and differences are the exact ones, wrapped once: to wrap along the
/// way changes nothing.
pub proof fn lemma_plus_and_minus_wrap_once(units: int, y: Currency)
    ensures
        Currency::wrapped(units).plus(y) == Currency::wrapped(units + y.0),
        Currency::wrapped(units).minus(y) == Currency::wrapped(units - y.0),
{
}

/// Taking an amount away undoes adding it, and adding it undoes taking it
/// away, whether or not a result wrapped around.
pub proof fn lemma_plus_and_minus_cancel(x: Currency, y: Currency)
    ensures
        x.plus(y).minus(y) == x,
        x.minus(y).plus(y) == x,
{
}

} // verus!
