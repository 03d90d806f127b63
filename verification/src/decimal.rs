use crate::currency::Currency;
use vstd::prelude::*;
use vstd::string::StringExecFns;

verus! {

/// A text that was to be read as an amount is not a number.
#[derive(Debug, Eq, PartialEq, Clone, Copy)]
pub struct ParseAmountError;

/// The character that stands for a digit.
pub open spec fn digit_char(digit: nat) -> char {
    ('0' as u32 + digit) as char
}

/// The digits of a natural number, most significant first, without leading
/// zeros; `0` for zero.
pub open spec fn numeral(n: nat) -> Seq<char>
    decreases n,
{
    if n < 10 {
        seq![digit_char(n)]
    } else {
        numeral(n / 10).push(digit_char(n % 10))
    }
}

/// The four digits that stand for a count of minor units below one display
/// unit.
pub open spec fn fraction(units: nat) -> Seq<char> {
    seq![
        digit_char((units / 1000) % 10),
        digit_char((units / 100) % 10),
        digit_char((units / 10) % 10),
        digit_char(units % 10),
    ]
}

/// How far a count of minor units is from zero.
pub open spec fn size(units: int) -> nat {
    if units < 0 {
        (-units) as nat
    } else {
        units as nat
    }
}

/// A count of minor units written in display units: a minus sign where the
/// count is negative, the whole display units, a point, and four digits for
/// the rest.
pub open spec fn decimal_text(units: int) -> Seq<char> {
    let sign = if units < 0 {
        seq!['-']
    } else {
        Seq::<char>::empty()
    };
    sign + numeral(size(units) / 10000) + seq!['.'] + fraction(size(units) % 10000)
}

/// Whether a character is one of the ten digits.
pub open spec fn is_digit(c: char) -> bool {
    '0' <= c <= '9'
}

/// The number that a digit stands for.
pub open spec fn digit_value(c: char) -> nat {
    (c as u32 - '0' as u32) as nat
}

/// Whether a text holds digits and nothing else.
pub open spec fn all_digits(text: Seq<char>) -> bool {
    forall|i: int| 0 <= i < text.len() ==> is_digit(#[trigger] text[i])
}

/// The number that a run of digits stands for; nothing for no digits.
pub open spec fn number(digits: Seq<char>) -> nat
    decreases digits.len(),
{
    if digits.len() == 0 {
        0
    } else {
        number(digits.drop_last()) * 10 + digit_value(digits.last())
    }
}

/// Whether a text begins with a sign.
pub open spec fn has_sign(text: Seq<char>) -> bool {
    text.len() > 0 && (text[0] == '-' || text[0] == '+')
}

/// A text without its sign, if it has one.
pub open spec fn unsigned(text: Seq<char>) -> Seq<char> {
    if has_sign(text) {
        text.drop_first()
    } else {
        text
    }
}

/// Where the first point of a text stands: how many characters come before
/// it, or the length of a text without a point.
pub open spec fn point_at(text: Seq<char>) -> int
    decreases text.len(),
{
    if text.len() == 0 || text.first() == '.' {
        0
    } else {
        1 + point_at(text.drop_first())
    }
}

/// What stands before the first point of an unsigned text.
pub open spec fn whole_digits(body: Seq<char>) -> Seq<char> {
    body.take(point_at(body))
}

/// What stands behind the first point of an unsigned text; nothing where
/// there is no point.
pub open spec fn fraction_digits(body: Seq<char>) -> Seq<char> {
    if point_at(body) < body.len() {
        body.skip(point_at(body) + 1)
    } else {
        Seq::<char>::empty()
    }
}

/// Whether an unsigned text is a number: digits, and optionally a point and
/// more digits, with a digit on at least one side of the point.
pub open spec fn is_number(body: Seq<char>) -> bool {
    &&& all_digits(whole_digits(body))
    &&& all_digits(fraction_digits(body))
    &&& whole_digits(body).len() + fraction_digits(body).len() > 0
}

/// Whether a text is a number in decimal notation: an optional sign and a
/// number. No exponent, no blanks, no words.
pub open spec fn is_decimal(text: Seq<char>) -> bool {
    is_number(unsigned(text))
}

/// The digit at a place behind the point, zero where the text ends before it.
pub open spec fn place(digits: Seq<char>, i: int) -> nat {
    if 0 <= i < digits.len() {
        digit_value(digits[i])
    } else {
        0
    }
}

/// The minor units that the digits behind the point come to: the first four
/// count, what follows them is cut off.
pub open spec fn fraction_units(digits: Seq<char>) -> nat {
    place(digits, 0) * 1000 + place(digits, 1) * 100 + place(digits, 2) * 10 + place(digits, 3)
}

/// The exact count of minor units that an unsigned number stands for, cut
/// off behind the fourth digit after the point.
pub open spec fn magnitude(body: Seq<char>) -> nat {
    number(whole_digits(body)) * 10000 + fraction_units(fraction_digits(body))
}

/// The exact count of minor units that a number in decimal notation stands
/// for, cut off behind the fourth digit after the point.
pub open spec fn decimal_units(text: Seq<char>) -> int {
    if has_sign(text) && text[0] == '-' {
        -magnitude(unsigned(text))
    } else {
        magnitude(unsigned(text)) as int
    }
}

/// The amount nearest to an exact count of minor units: the count itself
/// where it fits in an `i64`, else the largest or the smallest amount.
pub open spec fn nearest(units: int) -> Currency {
    if units > i64::MAX {
        Currency(i64::MAX)
    } else if units < i64::MIN {
        Currency(i64::MIN)
    } else {
        Currency(units as i64)
    }
}

/// What reading an amount from a text gives: nothing for an empty text, the
/// nearest amount for a number in decimal notation, and an error for
/// anything else.
pub open spec fn reading(text: Seq<char>) -> Result<Currency, ParseAmountError> {
    if text.len() == 0 {
        Ok(Currency::zero())
    } else if is_decimal(text) {
        Ok(nearest(decimal_units(text)))
    } else {
        Err(ParseAmountError)
    }
}

/// The text of one digit.
pub(crate) fn digit_text(digit: u64) -> (text: &'static str)
    requires
        digit < 10,
    ensures
        text@ == seq![digit_char(digit as nat)],
{
    proof {
        reveal_strlit("0");
        reveal_strlit("1");
        reveal_strlit("2");
        reveal_strlit("3");
        reveal_strlit("4");
        reveal_strlit("5");
        reveal_strlit("6");
        reveal_strlit("7");
        reveal_strlit("8");
        reveal_strlit("9");
    }
    let text = if digit == 0 {
        "0"
    } else if digit == 1 {
        "1"
    } else if digit == 2 {
        "2"
    } else if digit == 3 {
        "3"
    } else if digit == 4 {
        "4"
    } else if digit == 5 {
        "5"
    } else if digit == 6 {
        "6"
    } else if digit == 7 {
        "7"
    } else if digit == 8 {
        "8"
    } else {
        "9"
    };
    assert(text@ =~= seq![digit_char(digit as nat)]);
    text
}

/// Writes the digits of a number at the end of a text.
pub(crate) fn write_numeral(text: &mut String, n: u64)
    ensures
        final(text)@ == old(text)@ + numeral(n as nat),
    decreases n,
{
    if n >= 10 {
        write_numeral(text, n / 10);
    }
    text.append(digit_text(n % 10));
}

/// More whole display units than any amount holds: a number with as many
/// is out of range whatever stands behind its point.
pub const WHOLE_CAP: u64 = 922337203685478;

/// A number, or `cap` if that is smaller.
pub open spec fn capped(n: nat, cap: u64) -> u64 {
    if n <= cap {
        n as u64
    } else {
        cap
    }
}

/// The first point of a text stands where `point_at` says: nothing before
/// it is a point, and it is a point unless the text has none.
pub proof fn lemma_point_at(text: Seq<char>)
    ensures
        0 <= point_at(text) <= text.len(),
        forall|i: int| 0 <= i < point_at(text) ==> text[i] != '.',
        point_at(text) < text.len() ==> text[point_at(text)] == '.',
    decreases text.len(),
{
    if text.len() > 0 && text.first() != '.' {
        let rest = text.drop_first();
        lemma_point_at(rest);
        assert forall|i: int| 0 <= i < point_at(text) implies text[i] != '.' by {
            if i > 0 {
                assert(text[i] == rest[i - 1]);
            }
        }
        if point_at(text) < text.len() {
            assert(text[point_at(text)] == rest[point_at(rest)]);
        }
    }
}

/// The numeral of a number holds digits and nothing else, at least one, and
/// stands for that number.
pub proof fn lemma_numeral(n: nat)
    ensures
        numeral(n).len() > 0,
        all_digits(numeral(n)),
        number(numeral(n)) == n,
    decreases n,
{
    if n < 10 {
        assert(numeral(n).drop_last() =~= Seq::<char>::empty());
        assert(number(numeral(n).drop_last()) == 0);
    } else {
        lemma_numeral(n / 10);
        assert(numeral(n).drop_last() =~= numeral(n / 10));
    }
}

/// The four digits of a count below one display unit hold digits and
/// nothing else, and stand for that count.
pub proof fn lemma_fraction(units: nat)
    requires
        units < 10000,
    ensures
        fraction(units).len() == 4,
        all_digits(fraction(units)),
        fraction_units(fraction(units)) == units,
{
    let digits = fraction(units);
    assert(digit_value(digits[0]) == (units / 1000) % 10);
    assert(digit_value(digits[1]) == (units / 100) % 10);
    assert(digit_value(digits[2]) == (units / 10) % 10);
    assert(digit_value(digits[3]) == units % 10);
}

/// Digits, a point and more digits are a number, with the first digits
/// before its point and the others behind it.
pub proof fn lemma_parts_of_a_number(whole: Seq<char>, rest: Seq<char>)
    requires
        all_digits(whole),
        all_digits(rest),
    ensures
        whole_digits(whole + seq!['.'] + rest) == whole,
        fraction_digits(whole + seq!['.'] + rest) == rest,
{
    let body = whole + seq!['.'] + rest;
    lemma_point_at(body);
    assert forall|i: int| 0 <= i < whole.len() implies body[i] != '.' by {
        assert(is_digit(whole[i]));
    }
    assert(body[whole.len() as int] == '.');
    assert(point_at(body) == whole.len());
    assert(whole_digits(body) =~= whole);
    assert(fraction_digits(body) =~= rest);
}

/// What is written is read back: the text of a count of minor units is a
/// number in decimal notation, and stands for that count.
pub proof fn lemma_written_reads_back(units: int)
    ensures
        is_decimal(decimal_text(units)),
        decimal_units(decimal_text(units)) == units,
        reading(decimal_text(units)) == Ok::<Currency, ParseAmountError>(nearest(units)),
{
    let text = decimal_text(units);
    let whole = numeral(size(units) / 10000);
    let rest = fraction(size(units) % 10000);
    let body = whole + seq!['.'] + rest;
    lemma_numeral(size(units) / 10000);
    lemma_fraction(size(units) % 10000);
    lemma_parts_of_a_number(whole, rest);
    assert(is_digit(whole[0]));
    assert(unsigned(text) =~= body);
    assert(text.len() > 0);
    assert(has_sign(text) <==> units < 0);
    assert(magnitude(body) == size(units));
}

/// The characters of a text, one by one.
pub(crate) fn characters(text: &str) -> (chars: Vec<char>)
    ensures
        chars@ == text@,
{
    let mut chars: Vec<char> = Vec::new();
    for c in it: text.chars()
        invariant
            it.seq() == text@,
            chars@ == it.seq().take(it.index()),
    {
        chars.push(c);
        assert(it.seq().take(it.index() + 1) =~= it.seq().take(it.index()).push(c));
    }
    assert(text@.take(text@.len() as int) =~= text@);
    chars
}

/// Runs over the digits that stand in `chars` from `from` on. Gives where
/// they end, and the number they stand for, or `cap` if that is smaller.
pub(crate) fn read_digits(chars: &Vec<char>, from: usize, cap: u64) -> (read: (usize, u64))
    requires
        from <= chars.len(),
        cap <= 0x1000_0000_0000_0000,
    ensures
        from <= read.0 <= chars.len(),
        all_digits(chars@.subrange(from as int, read.0 as int)),
        read.0 < chars.len() ==> !is_digit(chars@[read.0 as int]),
        read.1 == capped(number(chars@.subrange(from as int, read.0 as int)), cap),
{
    let mut i = from;
    let mut value: u64 = 0;
    while i < chars.len() && chars[i] >= '0' && chars[i] <= '9'
        invariant
            from <= i <= chars.len(),
            cap <= 0x1000_0000_0000_0000,
            all_digits(chars@.subrange(from as int, i as int)),
            value == capped(number(chars@.subrange(from as int, i as int)), cap),
        decreases chars.len() - i,
    {
        let digit = (chars[i] as u32 - '0' as u32) as u64;
        proof {
            let before = chars@.subrange(from as int, i as int);
            let after = chars@.subrange(from as int, i + 1);
            assert(after.drop_last() =~= before);
            assert(after.last() == chars@[i as int]);
            assert forall|k: int| 0 <= k < after.len() implies is_digit(#[trigger] after[k]) by {
                if k < before.len() {
                    assert(after[k] == before[k]);
                }
            }
        }
        value = if value >= cap {
            cap
        } else if value * 10 + digit >= cap {
            cap
        } else {
            value * 10 + digit
        };
        i = i + 1;
    }
    (i, value)
}

/// The digit at place `i` among the digits that stand in `chars` from
/// `from` up to `end`, zero where there are fewer.
pub(crate) fn digit_at(chars: &Vec<char>, from: usize, end: usize, i: usize) -> (digit: u64)
    requires
        from <= end <= chars.len(),
        all_digits(chars@.subrange(from as int, end as int)),
    ensures
        digit == place(chars@.subrange(from as int, end as int), i as int),
        digit <= 9,
{
    if i < end - from {
        assert(chars@.subrange(from as int, end as int)[i as int] == chars@[from + i]);
        (chars[from + i] as u32 - '0' as u32) as u64
    } else {
        0
    }
}

/// What a scan of an unsigned text for digits, a point and more digits
/// says of it. The scan found digits up to `point`, where it met the end or
/// something that is no digit; where that was a point, it found digits
/// behind it up to `end`, where again it met the end or something that is no
/// digit.
proof fn lemma_scan(body: Seq<char>, point: int, behind: int, end: int)
    requires
        0 <= point <= body.len(),
        all_digits(body.subrange(0, point)),
        point < body.len() ==> !is_digit(body[point]),
        point < body.len() && body[point] == '.' ==> behind == point + 1,
        !(point < body.len() && body[point] == '.') ==> behind == point && end == point,
        behind <= end <= body.len(),
        all_digits(body.subrange(behind, end)),
        end < body.len() ==> !is_digit(body[end]),
    ensures
        is_number(body) <==> end == body.len() && point + (end - behind) > 0,
        end == body.len() ==> whole_digits(body) == body.subrange(0, point) && fraction_digits(
            body,
        ) == body.subrange(behind, end),
{
    lemma_point_at(body);
    assert forall|i: int| 0 <= i < point implies body[i] != '.' by {
        assert(body[i] == body.subrange(0, point)[i]);
    }
    if point < body.len() && body[point] != '.' {
        assert(point_at(body) > point);
        assert(whole_digits(body)[point] == body[point]);
    } else {
        assert(point_at(body) == point);
        assert(whole_digits(body) =~= body.subrange(0, point));
        assert(fraction_digits(body) =~= body.subrange(behind, body.len() as int));
        if end < body.len() {
            assert(fraction_digits(body)[end - behind] == body[end]);
        }
    }
}

/// Reads the unsigned number that stands in `chars` from `start` on. Gives
/// nothing where there is no number, and else its count of minor units, or,
/// where that count is 2^63 or more, some count that is 2^63 or more.
pub(crate) fn read_number(chars: &Vec<char>, start: usize) -> (size: Option<u64>)
    requires
        start <= chars.len(),
    ensures
        size is Some <==> is_number(chars@.skip(start as int)),
        size matches Some(n) ==> n == magnitude(chars@.skip(start as int)) || (n
            >= 0x8000_0000_0000_0000 && magnitude(chars@.skip(start as int))
            >= 0x8000_0000_0000_0000),
{
    let n = chars.len();
    let (point, whole) = read_digits(chars, start, WHOLE_CAP);
    let (behind, end) = if point < n && chars[point] == '.' {
        (point + 1, read_digits(chars, point + 1, 0).0)
    } else {
        (point, point)
    };
    proof {
        let body = chars@.skip(start as int);
        assert(body.subrange(0, point - start) =~= chars@.subrange(start as int, point as int));
        assert(body.subrange(behind - start, end - start) =~= chars@.subrange(
            behind as int,
            end as int,
        ));
        lemma_scan(body, point - start, behind - start, end - start);
    }
    if end < n || (point - start) + (end - behind) == 0 {
        return None;
    }
    let rest = digit_at(chars, behind, end, 0) * 1000 + digit_at(chars, behind, end, 1) * 100
        + digit_at(chars, behind, end, 2) * 10 + digit_at(chars, behind, end, 3);
    Some(whole * 10000 + rest)
}

} // verus!
