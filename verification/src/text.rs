//! Decimal digits in text: the building blocks of the formats that the
//! date and time types are written in and read from.

use vstd::prelude::*;
use vstd::string::*;

verus! {

/// A text is not written in the format that was expected.
#[derive(PartialEq, Eq, Debug)]
pub struct FormatError {
    /// The text that was refused.
    pub text: String,
    /// A text in the expected format.
    pub example: &'static str,
}

impl FormatError {
    /// The words that describe the error.
    pub open spec fn message(self) -> Seq<char> {
        "Invalid str formatting: "@ + self.text@ + "\nExpects a string formatted like "@
            + self.example@
    }

    /// Describes the error in words, with the text that was refused and
    /// an example of the expected format.
    pub fn to_string(&self) -> (words: String)
        ensures
            words@ == self.message(),
    {
        let mut out = String::new();
        out.append("Invalid str formatting: ");
        out.append(self.text.as_str());
        out.append("\nExpects a string formatted like ");
        out.append(self.example);
        assert(out@ =~= self.message());
        out
    }
}

/// Why a text could not be read as a value.
#[derive(PartialEq, Eq, Debug)]
pub enum ParseError<E> {
    /// The text is not written in an accepted format.
    Format(FormatError),
    /// The text is written in an accepted format, but the numbers in it
    /// are refused for the reason held.
    Invalid(E),
}

/// The error for a text that is not written like `example`.
pub(crate) fn format_error(text: &str, example: &'static str) -> (e: FormatError)
    ensures
        e.text@ == text@,
        e.example@ == example@,
{
    FormatError { text: text.to_owned(), example }
}

/// One of the characters `0` to `9`.
pub open spec fn is_digit(c: char) -> bool {
    '0' <= c && c <= '9'
}

/// The number that a digit stands for.
pub open spec fn digit_value(c: char) -> int {
    c as int - 48
}

/// The digit that stands for a number from 0 to 9.
pub open spec fn digit_char(d: int) -> char {
    ((d + 48) as u8) as char
}

/// A number below 100 written with two digits.
pub open spec fn two_digits(n: int) -> Seq<char> {
    seq![digit_char(n / 10), digit_char(n % 10)]
}

/// A number below 10000 written with four digits: the hundreds with two
/// digits, then the rest with two.
pub open spec fn four_digits(n: int) -> Seq<char> {
    two_digits(n / 100) + two_digits(n % 100)
}

/// A number written in decimal with no leading zeros.
pub open spec fn decimal(n: nat) -> Seq<char>
    decreases n,
{
    if n < 10 {
        seq![digit_char(n as int)]
    } else {
        decimal(n / 10).push(digit_char((n % 10) as int))
    }
}

/// Every character of the text is a digit.
pub open spec fn all_digits(text: Seq<char>) -> bool {
    forall|i: int| 0 <= i < text.len() ==> is_digit(#[trigger] text[i])
}

/// The `count` characters of the text from position `from` are digits.
pub open spec fn digits_at(text: Seq<char>, from: int, count: int) -> bool {
    forall|i: int| from <= i < from + count ==> is_digit(#[trigger] text[i])
}

/// The number that a text of digits stands for, leading zeros allowed.
pub open spec fn decimal_value(text: Seq<char>) -> int
    decreases text.len(),
{
    if text.len() == 0 {
        0
    } else {
        10 * decimal_value(text.drop_last()) + digit_value(text.last())
    }
}

/// The number that the two digits from position `from` stand for.
pub open spec fn two_digit_value(text: Seq<char>, from: int) -> int {
    10 * digit_value(text[from]) + digit_value(text[from + 1])
}

/// The number that the four digits from position `from` stand for.
pub open spec fn four_digit_value(text: Seq<char>, from: int) -> int {
    100 * two_digit_value(text, from) + two_digit_value(text, from + 2)
}

/// A digit is read back as the number it was written for.
pub proof fn lemma_digit_char(d: int)
    requires
        0 <= d <= 9,
    ensures
        is_digit(digit_char(d)),
        digit_value(digit_char(d)) == d,
{
}

/// Two digits written for a number below 100, wherever they stand in a
/// text, are read back as the number.
pub proof fn lemma_two_digits_at(text: Seq<char>, from: int, n: int)
    requires
        0 <= n <= 99,
        0 <= from,
        from + 2 <= text.len(),
        text.subrange(from, from + 2) == two_digits(n),
    ensures
        digits_at(text, from, 2),
        two_digit_value(text, from) == n,
{
    lemma_digit_char(n / 10);
    lemma_digit_char(n % 10);
    let part = text.subrange(from, from + 2);
    assert(part[0] == text[from] && part[1] == text[from + 1]);
}

/// Four digits written for a number below 10000, wherever they stand in a
/// text, are read back as the number.
pub proof fn lemma_four_digits_at(text: Seq<char>, from: int, n: int)
    requires
        0 <= n <= 9999,
        0 <= from,
        from + 4 <= text.len(),
        text.subrange(from, from + 4) == four_digits(n),
    ensures
        digits_at(text, from, 4),
        four_digit_value(text, from) == n,
{
    let part = text.subrange(from, from + 4);
    assert(text.subrange(from, from + 2) =~= two_digits(n / 100)) by {
        assert(part[0] == text[from] && part[1] == text[from + 1]);
    }
    assert(text.subrange(from + 2, from + 4) =~= two_digits(n % 100)) by {
        assert(part[2] == text[from + 2] && part[3] == text[from + 3]);
    }
    lemma_two_digits_at(text, from, n / 100);
    lemma_two_digits_at(text, from + 2, n % 100);
}

/// A number written in decimal is a text of digits that stands for the
/// number.
pub proof fn lemma_decimal_value(n: nat)
    ensures
        decimal(n).len() >= 1,
        all_digits(decimal(n)),
        decimal_value(decimal(n)) == n,
    decreases n,
{
    lemma_digit_char(n as int % 10);
    if n < 10 {
        assert(decimal(n).drop_last() =~= Seq::<char>::empty());
        assert(decimal_value(decimal(n).drop_last()) == 0);
    } else {
        lemma_decimal_value(n / 10);
        assert(decimal(n).drop_last() =~= decimal(n / 10));
    }
}

/// The text that holds one digit.
pub(crate) fn digit_str(d: u8) -> (r: &'static str)
    requires
        d <= 9,
    ensures
        r@ == seq![digit_char(d as int)],
{
    let r = match d {
        0 => "0",
        1 => "1",
        2 => "2",
        3 => "3",
        4 => "4",
        5 => "5",
        6 => "6",
        7 => "7",
        8 => "8",
        _ => "9",
    };
    proof {
        reveal_strlit("0");
        reveal_strlit("1");
        reveal_strlit("2");
        reveal_strlit("3");
        reveal_strlit("4");
        reveal_strlit("5");
        reveal_strlit("6");
        reveal_strlit("7");
        reveal_strlit("8");
        reveal_strlit("9");
        assert(r@ =~= seq![digit_char(d as int)]);
    }
    r
}

/// Writes a number below 100 with two digits.
pub(crate) fn push_two_digits(out: &mut String, n: u8)
    requires
        n < 100,
    ensures
        final(out)@ == old(out)@ + two_digits(n as int),
{
    out.append(digit_str(n / 10));
    out.append(digit_str(n % 10));
    assert(out@ =~= old(out)@ + two_digits(n as int));
}

/// Writes a number below 10000 with four digits.
pub(crate) fn push_four_digits(out: &mut String, n: u16)
    requires
        n < 10000,
    ensures
        final(out)@ == old(out)@ + four_digits(n as int),
{
    push_two_digits(out, (n / 100) as u8);
    push_two_digits(out, (n % 100) as u8);
    assert(out@ =~= old(out)@ + four_digits(n as int));
}

/// Writes a number in decimal with no leading zeros.
pub(crate) fn push_decimal(out: &mut String, n: u32)
    ensures
        final(out)@ == old(out)@ + decimal(n as nat),
    decreases n,
{
    if n >= 10 {
        push_decimal(out, n / 10);
    }
    out.append(digit_str((n % 10) as u8));
    assert(out@ =~= old(out)@ + decimal(n as nat));
}

/// The number of characters of a text of ASCII characters, and `None` for
/// a text that holds any other character.
pub(crate) fn ascii_len(text: &str) -> (r: Option<usize>)
    ensures
        r is Some <==> text.is_ascii(),
        r matches Some(n) ==> n == text@.len(),
{
    if text.is_ascii() {
        Some(text.unicode_len())
    } else {
        None
    }
}

/// Reads the digit at position `at`, if there is one.
pub(crate) fn read_digit(text: &str, at: usize) -> (r: Option<u8>)
    requires
        text.is_ascii(),
        at < text@.len(),
    ensures
        r is Some <==> is_digit(text@[at as int]),
        r matches Some(d) ==> d == digit_value(text@[at as int]) && d <= 9,
{
    let b = text.get_ascii(at);
    if 48 <= b && b <= 57 {
        Some(b - 48)
    } else {
        None
    }
}

/// Tells whether the character at position `at` is the ASCII character
/// with code `code`.
pub(crate) fn is_char_at(text: &str, at: usize, code: u8) -> (r: bool)
    requires
        text.is_ascii(),
        at < text@.len(),
        code < 128,
    ensures
        r == (text@[at as int] == code as char),
{
    text.get_ascii(at) == code
}

/// Reads the two digits from position `from`, if they are digits.
pub(crate) fn read_two_digits(text: &str, from: usize) -> (r: Option<u8>)
    requires
        text.is_ascii(),
        from + 2 <= text@.len() <= usize::MAX,
    ensures
        r is Some <==> digits_at(text@, from as int, 2),
        r matches Some(n) ==> n == two_digit_value(text@, from as int) && n <= 99,
{
    match (read_digit(text, from), read_digit(text, from + 1)) {
        (Some(tens), Some(ones)) => Some(10 * tens + ones),
        _ => None,
    }
}

/// Reads the four digits from position `from`, if they are digits.
pub(crate) fn read_four_digits(text: &str, from: usize) -> (r: Option<u16>)
    requires
        text.is_ascii(),
        from + 4 <= text@.len() <= usize::MAX,
    ensures
        r is Some <==> digits_at(text@, from as int, 4),
        r matches Some(n) ==> n == four_digit_value(text@, from as int) && n <= 9999,
{
    match (read_two_digits(text, from), read_two_digits(text, from + 2)) {
        (Some(high), Some(low)) => {
            Some(100 * (high as u16) + low as u16)
        },
        _ => {
            None
        },
    }
}

} // verus!
