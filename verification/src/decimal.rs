//! Numbers in decimal notation.

use vstd::prelude::*;
use vstd::arithmetic::power::{lemma_pow0, pow};

verus! {

/// The character for a number below ten.
pub open spec fn digit(number: int) -> char {
    (48 + number) as char
}

/// `number` in decimal notation, without leading zeros.
pub open spec fn decimal(number: int) -> Seq<char>
    decreases number,
{
    if number < 10 {
        seq![digit(number)]
    } else {
        decimal(number / 10).push(digit(number % 10))
    }
}

/// Whether `byte` is a decimal digit.
pub open spec fn is_digit(byte: u8) -> bool {
    48 <= byte <= 57
}

/// The number that the digits stand for.
pub open spec fn digits_value(digits: Seq<u8>) -> int
    decreases digits.len(),
{
    if digits.len() == 0 {
        0
    } else {
        digits_value(digits.drop_last()) * 10 + (digits.last() - 48)
    }
}

/// How many digits `text` starts with.
pub open spec fn leading_digits(text: Seq<u8>) -> int
    decreases text.len(),
{
    if text.len() == 0 || !is_digit(text.first()) {
        0
    } else {
        1 + leading_digits(text.drop_first())
    }
}

/// Why a text is not a number.
#[derive(Debug, Clone, Copy, PartialEq, Eq, Structural)]
pub enum NumberError {
    /// There is no text.
    Empty,
    /// There is something other than a digit.
    InvalidDigit,
    /// The number is too large.
    PosOverflow,
}

/// `text` without a plus sign in front of a number.
pub open spec fn unsigned(text: Seq<u8>) -> Seq<u8> {
    if text.len() > 1 && text[0] == 43 {
        text.skip(1)
    } else {
        text
    }
}

/// The number that `text` stands for: digits, of which there may be any number,
/// after an optional plus sign. Read from the left, the first thing that is
/// wrong decides the error.
pub open spec fn parsed_u16(text: Seq<u8>) -> Result<u16, NumberError> {
    let digits = unsigned(text);
    let count = leading_digits(digits);
    if text.len() == 0 {
        Err(NumberError::Empty)
    } else if digits_value(digits.take(count)) > u16::MAX {
        Err(NumberError::PosOverflow)
    } else if count < digits.len() {
        Err(NumberError::InvalidDigit)
    } else {
        Ok(digits_value(digits) as u16)
    }
}

/// The character for `number`.
fn digit_text(number: u32) -> (text: &'static str)
    requires
        number < 10,
    ensures
        text@ == seq![digit(number as int)],
{
    proof {
        reveal_strlit("0");
        reveal_strlit("1");
        reveal_strlit("2");
        reveal_strlit("3");
        reveal_strlit("4");
        reveal_strlit("5");
        reveal_strlit("6");
        reveal_strlit("7");
        reveal_strlit("8");
        reveal_strlit("9");
    }
    match number {
        0 => "0",
        1 => "1",
        2 => "2",
        3 => "3",
        4 => "4",
        5 => "5",
        6 => "6",
        7 => "7",
        8 => "8",
        _ => "9",
    }
}

/// `number` in decimal notation.
pub fn decimal_text(number: u32) -> (text: String)
    ensures
        text@ == decimal(number as int),
    decreases number,
{
    if number < 10 {
        digit_text(number).to_owned()
    } else {
        let mut text = decimal_text(number / 10);
        text.append(digit_text(number % 10));
        text
    }
}

/// `number` in decimal notation, with a minus sign if it is negative.
pub open spec fn signed_decimal(number: int) -> Seq<char> {
    if number < 0 {
        "-"@ + decimal(-number)
    } else {
        decimal(number)
    }
}

/// `number` in decimal notation, with a minus sign if it is negative.
pub fn signed_decimal_text(number: i32) -> (text: String)
    ensures
        text@ == signed_decimal(number as int),
{
    if number < 0 {
        let mut text: String = "-".to_owned();
        let magnitude: i64 = -(number as i64);
        text.append(decimal_text(magnitude as u32).as_str());
        text
    } else {
        decimal_text(number as u32)
    }
}

/// A run of digits that is not continued is all the digits that `text` starts
/// with.
proof fn run_of_digits_is_counted(text: Seq<u8>, count: int)
    requires
        0 <= count <= text.len(),
        forall|i: int| 0 <= i < count ==> is_digit(#[trigger] text[i]),
        count < text.len() ==> !is_digit(text[count]),
    ensures
        leading_digits(text) == count,
    decreases count,
{
    if count > 0 {
        run_of_digits_is_counted(text.drop_first(), count - 1);
    }
}

/// Longer runs of digits stand for numbers that are not smaller.
proof fn digits_value_grows(digits: Seq<u8>, shorter: int)
    requires
        0 <= shorter <= digits.len(),
        forall|i: int| 0 <= i < digits.len() ==> is_digit(#[trigger] digits[i]),
    ensures
        0 <= digits_value(digits.take(shorter)) <= digits_value(digits),
    decreases digits.len(),
{
    assert(digits.take(digits.len() as int) =~= digits);
    if digits.len() > 0 {
        let rest = digits.drop_last();
        if shorter < digits.len() {
            digits_value_grows(rest, shorter);
            assert(rest.take(shorter) =~= digits.take(shorter));
        } else {
            digits_value_grows(rest, rest.len() as int);
        }
    }
}

/// What is counted are digits, and they are not continued.
proof fn counted_are_digits(text: Seq<u8>)
    ensures
        0 <= leading_digits(text) <= text.len(),
        forall|i: int| 0 <= i < leading_digits(text) ==> is_digit(#[trigger] text[i]),
        leading_digits(text) < text.len() ==> !is_digit(text[leading_digits(text)]),
    decreases text.len(),
{
    if text.len() > 0 && is_digit(text.first()) {
        let rest = text.drop_first();
        counted_are_digits(rest);
        assert forall|i: int| 0 <= i < leading_digits(text) implies is_digit(#[trigger] text[i]) by {
            if i > 0 {
                assert(rest[i - 1] == text[i]);
            }
        }
    }
}

/// Once some digits are too much, no more digits make up for it.
proof fn overflow_is_final(digits: Seq<u8>, count: int)
    requires
        0 <= count <= digits.len(),
        forall|i: int| 0 <= i < count ==> is_digit(#[trigger] digits[i]),
    ensures
        digits_value(digits.take(count)) <= digits_value(digits.take(leading_digits(digits))),
{
    counted_are_digits(digits);
    let all = digits.take(leading_digits(digits));
    digits_value_grows(all, count);
    assert(all.take(count) =~= digits.take(count));
}

/// The number that `text` stands for.
pub fn parse_u16(text: &[u8]) -> (res: Result<u16, NumberError>)
    ensures
        res == parsed_u16(text@),
{
    if text.len() == 0 {
        return Err(NumberError::Empty);
    }
    let start: usize = if text.len() > 1 && text[0] == 43 {
        1
    } else {
        0
    };
    let ghost digits = unsigned(text@);
    let mut value: u32 = 0;
    let mut i: usize = start;
    while i < text.len()
        invariant
            start <= i <= text.len(),
            text@.len() > 0,
            digits == unsigned(text@),
            digits == text@.skip(start as int),
            forall|k: int| 0 <= k < i - start ==> is_digit(#[trigger] digits[k]),
            value == digits_value(digits.take(i - start)),
            value <= u16::MAX,
        decreases text.len() - i,
    {
        let byte = text[i];
        if byte < 48 || byte > 57 {
            proof {
                run_of_digits_is_counted(digits, i - start);
            }
            return Err(NumberError::InvalidDigit);
        }
        value = value * 10 + (byte - 48) as u32;
        i = i + 1;
        assert(digits.take(i - start).drop_last() =~= digits.take(i - start - 1));
        if value > 65535 {
            proof {
                overflow_is_final(digits, i - start);
            }
            return Err(NumberError::PosOverflow);
        }
    }
    proof {
        run_of_digits_is_counted(digits, digits.len() as int);
        assert(digits.take(digits.len() as int) =~= digits);
    }
    Ok(value as u16)
}

/// A text of which every character takes one byte, as bytes.
pub open spec fn ascii(text: Seq<char>) -> Seq<u8> {
    Seq::new(text.len(), |i: int| text[i] as u8)
}

/// Decimal notation consists of digits, and they stand for the number.
pub proof fn decimal_stands_for_its_number(number: int)
    requires
        0 <= number,
    ensures
        decimal(number).len() > 0,
        forall|i: int| 0 <= i < decimal(number).len() ==> is_digit(#[trigger] ascii(decimal(number))[i]),
        forall|i: int| 0 <= i < decimal(number).len() ==> 48 <= #[trigger] decimal(number)[i] <= 57,
        digits_value(ascii(decimal(number))) == number,
    decreases number,
{
    let bytes = ascii(decimal(number));
    if number < 10 {
        assert(digits_value(bytes.drop_last()) == 0);
    } else {
        decimal_stands_for_its_number(number / 10);
        assert(bytes.drop_last() =~= ascii(decimal(number / 10)));
        assert forall|i: int| 0 <= i < decimal(number).len() implies is_digit(
            #[trigger] bytes[i],
        ) && 48 <= decimal(number)[i] <= 57 by {
        }
    }
}

/// Who reads a number in decimal notation gets the number.
pub proof fn decimal_is_read_back(number: u16)
    ensures
        parsed_u16(ascii(decimal(number as int))) == Ok::<u16, NumberError>(number),
{
    let text = ascii(decimal(number as int));
    decimal_stands_for_its_number(number as int);
    run_of_digits_is_counted(text, text.len() as int);
    assert(text.take(text.len() as int) =~= text);
}

/// Digits stand for a number by their places: to put more digits behind some is
/// to multiply by ten for each of them, and to add what they stand for.
pub proof fn digits_count_by_tens(front: Seq<u8>, back: Seq<u8>)
    ensures
        digits_value(front + back) == digits_value(front) * pow(10, back.len()) + digits_value(
            back,
        ),
        front.len() == 0 ==> digits_value(front) == 0,
        front.len() == 1 ==> digits_value(front) == front[0] - 48,
    decreases back.len(),
{
    reveal_with_fuel(digits_value, 2);
    lemma_pow0(10);
    if back.len() > 0 {
        digits_count_by_tens(front, back.drop_last());
        assert((front + back).drop_last() =~= front + back.drop_last());
        let tens = pow(10, back.drop_last().len());
        reveal(pow);
        let (a, b) = (digits_value(front), digits_value(back.drop_last()));
        assert((a * tens + b) * 10 == a * (10 * tens) + b * 10) by (nonlinear_arith);
    }
}

/// Whether `text` is the usual way to write `number`: digits alone, no zero in
/// front of others, and by their places they stand for `number`.
pub open spec fn stands_for(text: Seq<char>, number: int) -> bool {
    &&& text.len() > 0
    &&& forall|i: int| 0 <= i < text.len() ==> '0' <= #[trigger] text[i] <= '9'
    &&& text[0] == '0' ==> text.len() == 1
    &&& digits_value(text.map_values(|character: char| character as u8)) == number
}

/// Decimal notation has no zero in front of other digits.
pub proof fn decimal_has_no_leading_zeros(number: int)
    requires
        0 <= number,
    ensures
        decimal(number)[0] == '0' ==> number == 0,
        stands_for(decimal(number), number),
    decreases number,
{
    decimal_stands_for_its_number(number);
    assert(ascii(decimal(number)) =~= decimal(number).map_values(
        |character: char| character as u8,
    ));
    if number >= 10 {
        decimal_has_no_leading_zeros(number / 10);
    }
}

/// A number is written in the usual way, and one that is negative with a minus
/// sign in front.
pub proof fn numbers_are_written_in_the_usual_way(
    number: u32,
    text: String,
    signed: i32,
    signed_text: String,
)
    requires
        call_ensures(decimal_text, (number,), text),
        call_ensures(signed_decimal_text, (signed,), signed_text),
    ensures
        stands_for(text@, number as int),
        signed >= 0 ==> stands_for(signed_text@, signed as int),
        signed < 0 ==> signed_text@.len() > 0 && signed_text@[0] == '-' && stands_for(
            signed_text@.skip(1),
            -signed,
        ),
{
    reveal_strlit("-");
    decimal_has_no_leading_zeros(number as int);
    if signed >= 0 {
        decimal_has_no_leading_zeros(signed as int);
    } else {
        decimal_has_no_leading_zeros(-signed);
        assert(signed_text@.skip(1) =~= decimal(-signed));
    }
}

/// Digits, however many, are read as the number that they stand for, unless it
/// is too large. No digits at all are no number.
pub proof fn digits_are_read_as_their_number(text: &[u8], res: Result<u16, NumberError>)
    requires
        call_ensures(parse_u16, (text,), res),
        forall|i: int| 0 <= i < text@.len() ==> 48 <= #[trigger] text@[i] <= 57,
    ensures
        text@.len() == 0 ==> res == Err::<u16, _>(NumberError::Empty),
        text@.len() > 0 && digits_value(text@) <= 65535 ==> (res matches Ok(number) && number
            == digits_value(text@)),
        text@.len() > 0 && digits_value(text@) > 65535 ==> res == Err::<u16, _>(
            NumberError::PosOverflow,
        ),
{
    run_of_digits_is_counted(text@, text@.len() as int);
    assert(text@.take(text@.len() as int) =~= text@);
    digits_value_grows(text@, 0);
}

/// One plus sign in front of a text changes nothing, except that nothing else
/// and a second plus sign are no digits.
pub proof fn one_plus_sign_changes_nothing(
    text: &[u8],
    res: Result<u16, NumberError>,
    signed: &[u8],
    signed_res: Result<u16, NumberError>,
)
    requires
        call_ensures(parse_u16, (text,), res),
        call_ensures(parse_u16, (signed,), signed_res),
        signed@ == seq![43u8] + text@,
    ensures
        text@.len() > 0 && text@[0] != 43 ==> signed_res == res,
        text@.len() == 0 || text@[0] == 43 ==> signed_res == Err::<u16, _>(
            NumberError::InvalidDigit,
        ),
{
    assert(signed@.skip(1) =~= text@);
}

/// Read from the left, the first thing that is wrong decides: a character that
/// is no digit, unless the digits before it already stand for too large a
/// number.
pub proof fn first_thing_that_is_wrong_decides(
    text: &[u8],
    res: Result<u16, NumberError>,
    count: int,
)
    requires
        call_ensures(parse_u16, (text,), res),
        0 <= count < text@.len(),
        forall|i: int| 0 <= i < count ==> 48 <= #[trigger] text@[i] <= 57,
        !(48 <= text@[count] <= 57),
        count == 0 ==> text@[0] != 43,
    ensures
        res == Err::<u16, _>(
            if digits_value(text@.take(count)) > 65535 {
                NumberError::PosOverflow
            } else {
                NumberError::InvalidDigit
            },
        ),
{
    run_of_digits_is_counted(text@, count);
}

} // verus!
