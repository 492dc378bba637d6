//! Reading dollar rates out of what price services answer.

use vstd::prelude::*;
use crate::json::{member, part_view, Json, JsonView};

verus! {

/// Why a text is not a whole number of 64 bits.
#[derive(Clone, Copy, Debug, PartialEq, Eq)]
pub enum ParseIntError {
    /// There is nothing to read.
    Empty,
    /// A character is not a digit.
    InvalidDigit,
    /// The number is too large.
    PosOverflow,
}

impl ParseIntError {
    /// The text of the error.
    pub open spec fn text(self) -> Seq<char> {
        match self {
            ParseIntError::Empty => "cannot parse integer from empty string"@,
            ParseIntError::InvalidDigit => "invalid digit found in string"@,
            ParseIntError::PosOverflow => "number too large to fit in target type"@,
        }
    }

    /// Tells the error in words.
    pub fn message(&self) -> (message: &'static str)
        ensures
            message@ == self.text(),
    {
        match self {
            ParseIntError::Empty => "cannot parse integer from empty string",
            ParseIntError::InvalidDigit => "invalid digit found in string",
            ParseIntError::PosOverflow => "number too large to fit in target type",
        }
    }
}

/// Whether a character is a decimal digit.
pub open spec fn is_digit(c: char) -> bool {
    '0' <= c <= '9'
}

/// The value of a decimal digit.
pub open spec fn digit_value(c: char) -> nat {
    (c as nat - '0' as nat) as nat
}

/// Reads digits from the left, after a number that is read already; the first thing that is wrong
/// decides.
pub open spec fn read_digits(digits: Seq<char>, read: nat) -> Result<nat, ParseIntError>
    decreases digits.len(),
{
    if digits.len() == 0 {
        Ok(read)
    } else if !is_digit(digits[0]) {
        Err(ParseIntError::InvalidDigit)
    } else if read * 10 + digit_value(digits[0]) > u64::MAX {
        Err(ParseIntError::PosOverflow)
    } else {
        read_digits(digits.drop_first(), read * 10 + digit_value(digits[0]))
    }
}

/// Reads a whole number of 64 bits: an optional plus sign, then only digits, at least one.
pub open spec fn read_u64(text: Seq<char>) -> Result<nat, ParseIntError> {
    if text.len() == 0 {
        Err(ParseIntError::Empty)
    } else if text[0] == '+' {
        if text.len() == 1 {
            Err(ParseIntError::InvalidDigit)
        } else {
            read_digits(text.drop_first(), 0)
        }
    } else {
        read_digits(text, 0)
    }
}

/// What stands before the first full stop, all of the text where there is none.
pub open spec fn before_full_stop(text: Seq<char>) -> Seq<char>
    decreases text.len(),
{
    if text.len() == 0 || text[0] == '.' {
        Seq::empty()
    } else {
        seq![text[0]] + before_full_stop(text.drop_first())
    }
}

/// The number that digits write down.
pub open spec fn decimal_value(digits: Seq<char>) -> nat
    decreases digits.len(),
{
    if digits.len() == 0 {
        0
    } else {
        decimal_value(digits.drop_last()) * 10 + digit_value(digits.last())
    }
}

/// The dollar rate in a price document: the whole dollars of the current price in US dollars.
///
/// What the service writes there is taken as text; only a number can start with a digit.
pub open spec fn rate_in(document: JsonView) -> Result<nat, ParseIntError> {
    match document.member("market_data"@).member("current_price"@).member("usd"@) {
        JsonView::Number { text, .. } => read_u64(before_full_stop(text)),
        _ => Err(ParseIntError::InvalidDigit),
    }
}

/// Where the first full stop is, or where the text ends.
fn find_full_stop(text: &Vec<char>) -> (place: usize)
    ensures
        place <= text@.len(),
        before_full_stop(text@) == text@.take(place as int),
{
    let mut i: usize = 0;
    proof {
        lemma_no_stop_yet(text@, 0);
    }
    while i < text.len() && text[i] != '.'
        invariant
            i <= text@.len(),
            forall|j: int| 0 <= j < i ==> text@[j] != '.',
        decreases text@.len() - i,
    {
        i += 1;
    }
    proof {
        lemma_no_stop_yet(text@, i as int);
        assert(text@.take(i as int) + before_full_stop(text@.skip(i as int)) =~= text@.take(
            i as int,
        ));
    }
    i
}

/// Characters that are no full stop stand before the first one.
proof fn lemma_no_stop_yet(text: Seq<char>, i: int)
    requires
        0 <= i <= text.len(),
        forall|j: int| 0 <= j < i ==> text[j] != '.',
    ensures
        before_full_stop(text) == text.take(i) + before_full_stop(text.skip(i)),
    decreases i,
{
    if i == 0 {
        assert(text.skip(0) =~= text);
        assert(text.take(0) + before_full_stop(text) =~= before_full_stop(text));
    } else {
        let rest = text.drop_first();
        lemma_no_stop_yet(rest, i - 1);
        assert(rest.skip(i - 1) =~= text.skip(i));
        assert(seq![text[0]] + (rest.take(i - 1) + before_full_stop(text.skip(i))) =~= text.take(i)
            + before_full_stop(text.skip(i)));
    }
}

/// Reads the digits between two places.
fn parse_digits(text: &Vec<char>, from: usize, to: usize) -> (number: Result<u64, ParseIntError>)
    requires
        from <= to <= text@.len(),
    ensures
        match number {
            Ok(value) => read_digits(text@.subrange(from as int, to as int), 0) == Ok::<
                nat,
                ParseIntError,
            >(value as nat),
            Err(error) => read_digits(text@.subrange(from as int, to as int), 0) == Err::<
                nat,
                ParseIntError,
            >(error),
        },
{
    let ghost digits = text@.subrange(from as int, to as int);
    let mut value: u64 = 0;
    let mut i: usize = from;
    while i < to
        invariant
            from <= i <= to <= text@.len(),
            digits == text@.subrange(from as int, to as int),
            read_digits(digits, 0) == read_digits(
                text@.subrange(i as int, to as int),
                value as nat,
            ),
        decreases to - i,
    {
        let c = text[i];
        let ghost rest = text@.subrange(i as int, to as int);
        assert(rest[0] == c);
        assert(rest.drop_first() =~= text@.subrange(i + 1, to as int));
        if c < '0' || '9' < c {
            return Err(ParseIntError::InvalidDigit);
        }
        let digit: u64 = (c as u32 - '0' as u32) as u64;
        value = match value.checked_mul(10) {
            Some(tens) => match tens.checked_add(digit) {
                Some(sum) => sum,
                None => {
                    return Err(ParseIntError::PosOverflow);
                },
            },
            None => {
                return Err(ParseIntError::PosOverflow);
            },
        };
        i += 1;
    }
    Ok(value)
}

/// Reads the whole part of a number as it is written.
pub fn parse_whole_part(text: &Vec<char>) -> (number: Result<u64, ParseIntError>)
    ensures
        match number {
            Ok(value) => read_u64(before_full_stop(text@)) == Ok::<nat, ParseIntError>(
                value as nat,
            ),
            Err(error) => read_u64(before_full_stop(text@)) == Err::<nat, ParseIntError>(error),
        },
{
    let end: usize = find_full_stop(text);
    let ghost whole = before_full_stop(text@);
    assert(whole =~= text@.subrange(0, end as int));
    if end == 0 {
        return Err(ParseIntError::Empty);
    }
    assert(whole[0] == text@[0]);
    if text[0] == '+' {
        if end == 1 {
            return Err(ParseIntError::InvalidDigit);
        }
        assert(whole.drop_first() =~= text@.subrange(1, end as int));
        parse_digits(text, 1, end)
    } else {
        parse_digits(text, 0, end)
    }
}

/// The characters of a text.
fn characters(text: &str) -> (chars: Vec<char>)
    ensures
        chars@ == text@,
{
    let mut chars: Vec<char> = Vec::new();
    let len: usize = text.unicode_len();
    let mut i: usize = 0;
    while i < len
        invariant
            i <= len,
            len == text@.len(),
            chars@ == text@.take(i as int),
        decreases len - i,
    {
        chars.push(text.get_char(i));
        i += 1;
        assert(chars@ =~= text@.take(i as int));
    }
    assert(text@.take(i as int) =~= text@);
    chars
}

/// Reads the dollar rate out of a price document.
pub fn ticker_rate(document: &Json) -> (rate: Result<u64, ParseIntError>)
    ensures
        match rate {
            Ok(value) => rate_in(document@) == Ok::<nat, ParseIntError>(value as nat),
            Err(error) => rate_in(document@) == Err::<nat, ParseIntError>(error),
        },
{
    let market_data = member(Some(document), "market_data");
    let current_price = member(market_data, "current_price");
    let usd = member(current_price, "usd");
    match usd {
        Some(Json::Number { text, .. }) => {
            assert(part_view(usd) == (JsonView::Number {
                text: text@,
                unsigned: part_view(usd)->unsigned,
            }));
            parse_whole_part(&characters(text.as_str()))
        },
        _ => Err(ParseIntError::InvalidDigit),
    }
}

/// Digits are read to the number that they write down, where it fits in 64 bits.
pub proof fn law_digits_are_read(digits: Seq<char>)
    requires
        digits.len() > 0,
        forall|i: int| 0 <= i < digits.len() ==> is_digit(#[trigger] digits[i]),
        decimal_value(digits) <= u64::MAX,
    ensures
        read_u64(digits) == Ok::<nat, ParseIntError>(decimal_value(digits)),
{
    assert(is_digit(digits[0]));
    lemma_digits_are_read(digits, Seq::empty(), digits);
    assert(Seq::empty() + digits =~= digits);
}

/// What [`law_digits_are_read`] says, in the middle of reading.
proof fn lemma_digits_are_read(digits: Seq<char>, done: Seq<char>, rest: Seq<char>)
    requires
        digits == done + rest,
        forall|i: int| 0 <= i < digits.len() ==> is_digit(#[trigger] digits[i]),
        decimal_value(digits) <= u64::MAX,
    ensures
        read_digits(rest, decimal_value(done)) == Ok::<nat, ParseIntError>(decimal_value(digits)),
    decreases rest.len(),
{
    if rest.len() == 0 {
        assert(done =~= digits);
    } else {
        let more = done.push(rest[0]);
        assert(digits[done.len() as int] == rest[0]);
        assert(more.drop_last() =~= done);
        assert(digits =~= more + rest.drop_first());
        lemma_decimal_grows(more, rest.drop_first());
        lemma_digits_are_read(digits, more, rest.drop_first());
    }
}

/// More digits make no smaller number.
proof fn lemma_decimal_grows(done: Seq<char>, rest: Seq<char>)
    ensures
        decimal_value(done) <= decimal_value(done + rest),
    decreases rest.len(),
{
    if rest.len() == 0 {
        assert(done + rest =~= done);
    } else {
        lemma_decimal_grows(done, rest.drop_last());
        assert((done + rest).drop_last() =~= done + rest.drop_last());
    }
}

/// Only digits after an optional plus sign are read as a number: a text that is read has no other
/// character.
pub proof fn law_only_digits_are_read(text: Seq<char>)
    requires
        read_u64(text) is Ok,
    ensures
        text.len() > 0,
        forall|i: int|
            0 <= i < text.len() ==> is_digit(#[trigger] text[i]) || (i == 0 && text[i] == '+'),
{
    if text[0] == '+' {
        lemma_only_digits(text.drop_first(), 0);
        assert forall|i: int| 0 < i < text.len() implies is_digit(#[trigger] text[i]) by {
            assert(text.drop_first()[i - 1] == text[i]);
        }
    } else {
        lemma_only_digits(text, 0);
    }
}

proof fn lemma_only_digits(digits: Seq<char>, read: nat)
    requires
        read_digits(digits, read) is Ok,
    ensures
        forall|i: int| 0 <= i < digits.len() ==> is_digit(#[trigger] digits[i]),
    decreases digits.len(),
{
    if digits.len() > 0 {
        let rest = digits.drop_first();
        lemma_only_digits(rest, read * 10 + digit_value(digits[0]));
        assert forall|i: int| 0 <= i < digits.len() implies is_digit(#[trigger] digits[i]) by {
            if i > 0 {
                assert(rest[i - 1] == digits[i]);
            }
        }
    }
}

/// The decimal digits and their values, and how a digit more changes a number.
pub proof fn law_a_digit_more_is_ten_times_as_much(digits: Seq<char>, c: char)
    ensures
        is_digit(c) <==> 48 <= c as int <= 57,
        is_digit(c) ==> decimal_value(digits.push(c)) == 10 * decimal_value(digits) + (c as int
            - 48),
        decimal_value(Seq::<char>::empty()) == 0,
{
    assert(digits.push(c).drop_last() =~= digits);
}

/// Reading goes from the left and stops at the first thing that is wrong: a character that is no
/// digit, or a digit that makes the number too large for 64 bits.
pub proof fn law_the_first_wrong_character_decides(digits: Seq<char>, c: char, rest: Seq<char>)
    requires
        forall|i: int| 0 <= i < digits.len() ==> is_digit(#[trigger] digits[i]),
        decimal_value(digits) <= u64::MAX,
        digits.len() > 0 || c != '+',
    ensures
        !is_digit(c) ==> read_u64(digits + seq![c] + rest) == Err::<nat, ParseIntError>(
            ParseIntError::InvalidDigit,
        ),
        is_digit(c) && 10 * decimal_value(digits) + (c as int - 48) > u64::MAX ==> read_u64(
            digits + seq![c] + rest,
        ) == Err::<nat, ParseIntError>(ParseIntError::PosOverflow),
{
    let text = digits + seq![c] + rest;
    let left = seq![c] + rest;
    assert(text =~= digits + left);
    assert(left[0] == c);
    if digits.len() > 0 {
        assert(text[0] == digits[0]);
        assert(is_digit(digits[0]));
    }
    lemma_digits_are_passed(digits, Seq::empty(), digits, left);
    assert(Seq::empty() + digits =~= digits);
}

/// Digits that fit are read, and reading goes on behind them.
proof fn lemma_digits_are_passed(
    digits: Seq<char>,
    done: Seq<char>,
    rest: Seq<char>,
    left: Seq<char>,
)
    requires
        digits == done + rest,
        forall|i: int| 0 <= i < digits.len() ==> is_digit(#[trigger] digits[i]),
        decimal_value(digits) <= u64::MAX,
    ensures
        read_digits(rest + left, decimal_value(done)) == read_digits(left, decimal_value(digits)),
    decreases rest.len(),
{
    if rest.len() == 0 {
        assert(done =~= digits);
        assert(rest + left =~= left);
    } else {
        let more = done.push(rest[0]);
        assert(digits[done.len() as int] == rest[0]);
        assert(more.drop_last() =~= done);
        assert(digits =~= more + rest.drop_first());
        assert((rest + left).drop_first() =~= rest.drop_first() + left);
        lemma_decimal_grows(more, rest.drop_first());
        lemma_digits_are_passed(digits, more, rest.drop_first(), left);
    }
}

/// A sign in front of a number does not change it; there has to be a number behind it.
pub proof fn law_a_plus_sign_does_not_count(text: Seq<char>)
    ensures
        text.len() > 0 && text[0] != '+' ==> read_u64(seq!['+'] + text) == read_u64(text),
        read_u64(seq!['+']) == Err::<nat, ParseIntError>(ParseIntError::InvalidDigit),
        read_u64(Seq::<char>::empty()) == Err::<nat, ParseIntError>(ParseIntError::Empty),
{
    assert((seq!['+'] + text).drop_first() =~= text);
}

/// What stands before the first full stop is what counts, whatever stands behind it.
pub proof fn law_only_the_whole_part_counts(whole: Seq<char>, rest: Seq<char>)
    requires
        forall|i: int| 0 <= i < whole.len() ==> whole[i] != '.',
    ensures
        before_full_stop(whole) == whole,
        before_full_stop(whole + seq!['.'] + rest) == whole,
{
    let text = whole + seq!['.'] + rest;
    let n = whole.len() as int;
    lemma_no_stop_yet(whole, n);
    assert(whole.take(n) + before_full_stop(whole.skip(n)) =~= whole);
    lemma_no_stop_yet(text, n);
    assert(text.skip(n)[0] == '.');
    assert(text.take(n) + before_full_stop(text.skip(n)) =~= whole);
}

/// A price document gives the whole dollars of its price in US dollars, whatever stands behind the
/// full stop and whatever else is in the document; what is no number is no price.
pub proof fn law_prices_are_whole_dollars(document: JsonView, whole: Seq<char>, rest: Seq<char>)
    requires
        whole.len() > 0,
        forall|i: int| 0 <= i < whole.len() ==> is_digit(#[trigger] whole[i]),
        decimal_value(whole) <= u64::MAX,
    ensures
        ({
            let usd = document.member("market_data"@).member("current_price"@).member("usd"@);
            &&& usd matches JsonView::Number { text, .. } ==> (text == whole || text == whole
                + seq!['.'] + rest ==> rate_in(document) == Ok::<nat, ParseIntError>(
                decimal_value(whole),
            ))
            &&& !(usd is Number) ==> rate_in(document) == Err::<nat, ParseIntError>(
                ParseIntError::InvalidDigit,
            )
        }),
{
    assert forall|i: int| 0 <= i < whole.len() implies whole[i] != '.' by {
        assert(is_digit(whole[i]));
    }
    law_only_the_whole_part_counts(whole, rest);
    law_digits_are_read(whole);
}

/// A price that is written as a number is read as that number's whole part is, and refused as it
/// is.
pub proof fn law_prices_are_read_as_their_whole_parts(
    document: JsonView,
    whole: Seq<char>,
    rest: Seq<char>,
)
    requires
        document.member("market_data"@).member("current_price"@).member("usd"@) matches
            JsonView::Number { text, .. } && (text == whole || text == whole + seq!['.'] + rest),
        forall|i: int| 0 <= i < whole.len() ==> whole[i] != '.',
    ensures
        rate_in(document) == read_u64(whole),
{
    law_only_the_whole_part_counts(whole, rest);
}

/// What is read is a number of 64 bits.
pub proof fn law_what_is_read_fits(text: Seq<char>)
    requires
        read_u64(text) is Ok,
    ensures
        read_u64(text)->Ok_0 <= u64::MAX,
{
    if text[0] == '+' {
        lemma_what_is_read_fits(text.drop_first(), 0);
    } else {
        lemma_what_is_read_fits(text, 0);
    }
}

proof fn lemma_what_is_read_fits(digits: Seq<char>, read: nat)
    requires
        read <= u64::MAX,
        read_digits(digits, read) is Ok,
    ensures
        read_digits(digits, read)->Ok_0 <= u64::MAX,
    decreases digits.len(),
{
    if digits.len() > 0 {
        lemma_what_is_read_fits(digits.drop_first(), read * 10 + digit_value(digits[0]));
    }
}

/// A dollar rate is a number of 64 bits.
pub proof fn law_rates_fit(document: JsonView)
    requires
        rate_in(document) is Ok,
    ensures
        rate_in(document)->Ok_0 <= u64::MAX,
{
    let usd = document.member("market_data"@).member("current_price"@).member("usd"@);
    if let JsonView::Number { text, .. } = usd {
        law_what_is_read_fits(before_full_stop(text));
    }
}

} // verus!
