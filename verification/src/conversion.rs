//! Conversions from text to typed values.

use vstd::prelude::*;
use crate::text::{decimal, digit_char, signed_decimal, str_eq, to_chars};
use crate::value::{Value, ValueView};

verus! {

/// The character is one of the digits `0` to `9`.
pub open spec fn is_digit(c: char) -> bool {
    0x30 <= c as u32 <= 0x39
}

/// The number that a digit stands for; zero for any other character.
pub open spec fn digit_value(c: char) -> nat {
    if is_digit(c) {
        (c as u32 - 0x30) as nat
    } else {
        0
    }
}

/// Every character is a digit.
pub open spec fn all_digits(text: Seq<char>) -> bool {
    forall|i: int| 0 <= i < text.len() ==> is_digit(#[trigger] text[i])
}

/// The number that a decimal numeral stands for.
pub open spec fn number(digits: Seq<char>) -> nat
    decreases digits.len(),
{
    if digits.len() == 0 {
        0
    } else {
        number(digits.drop_last()) * 10 + digit_value(digits.last())
    }
}

/// A numeral stands for no less than any of its beginnings.
pub proof fn lemma_number_grows(digits: Seq<char>, k: int)
    requires
        0 <= k <= digits.len(),
    ensures
        number(digits.take(k)) <= number(digits),
    decreases digits.len(),
{
    if k == digits.len() {
        assert(digits.take(k) =~= digits);
    } else {
        assert(digits.take(k) =~= digits.drop_last().take(k));
        lemma_number_grows(digits.drop_last(), k);
    }
}

/// A decimal numeral is made of digits, one at least, and stands for the
/// number that it was made of.
pub proof fn lemma_decimal_is_read_back(n: nat)
    ensures
        decimal(n).len() > 0,
        all_digits(decimal(n)),
        number(decimal(n)) == n,
    decreases n,
{
    if n < 10 {
        let numeral = decimal(n);
        assert(numeral.drop_last() =~= Seq::<char>::empty());
        assert(number(numeral.drop_last()) == 0);
        assert(is_digit(digit_char(n as int)) && digit_value(digit_char(n as int)) == n);
    } else {
        let front = decimal(n / 10);
        let last = digit_char((n % 10) as int);
        lemma_decimal_is_read_back(n / 10);
        assert(front.push(last).drop_last() =~= front);
        assert(is_digit(last) && digit_value(last) == n % 10);
        assert forall|i: int| 0 <= i < decimal(n).len() implies is_digit(
            #[trigger] decimal(n)[i],
        ) by {
            if i < front.len() {
                assert(is_digit(front[i]));
            }
        }
    }
}

/// The integer that a text stands for: a sign or none, then one digit or
/// more and nothing else, and a number that a 64-bit integer can hold.
pub open spec fn parse_i64_spec(text: Seq<char>) -> Option<i64> {
    let negative = text.len() > 0 && text[0] == '-';
    let signed = text.len() > 0 && (text[0] == '-' || text[0] == '+');
    let digits = if signed {
        text.skip(1)
    } else {
        text
    };
    let n = if negative {
        -(number(digits) as int)
    } else {
        number(digits) as int
    };
    if digits.len() > 0 && all_digits(digits) && i64::MIN <= n <= i64::MAX {
        Some(n as i64)
    } else {
        None
    }
}

/// What is written is read back: the numeral of an integer stands for
/// that integer.
pub proof fn theorem_numeral_is_read_back(n: i64)
    ensures
        parse_i64_spec(signed_decimal(n as int)) == Some(n),
{
    let text = signed_decimal(n as int);
    if n < 0 {
        let digits = decimal((-n) as nat);
        lemma_decimal_is_read_back((-n) as nat);
        assert(text[0] == '-');
        assert(text.skip(1) =~= digits);
    } else {
        lemma_decimal_is_read_back(n as nat);
        assert(is_digit(text[0]));
    }
}

/// The integer that `text` stands for, if it stands for one.
pub fn parse_i64(text: &str) -> (parsed: Option<i64>)
    ensures
        parsed == parse_i64_spec(text@),
{
    let chars = to_chars(text);
    let size = chars.len();
    if size == 0 {
        return None;
    }
    let negative = chars[0] == '-';
    let start: usize = if chars[0] == '-' || chars[0] == '+' {
        1
    } else {
        0
    };
    if start == size {
        return None;
    }
    let ghost digits = chars@.skip(start as int);
    let limit: u64 = if negative {
        9223372036854775808
    } else {
        9223372036854775807
    };
    let mut acc: u64 = 0;
    let mut i: usize = start;
    assert(digits.take(0) =~= Seq::<char>::empty());
    assert(chars@.skip(0) =~= chars@);
    while i < size
        invariant
            start <= i <= size,
            start < size,
            0 < size == chars@.len(),
            chars@ == text@,
            negative == (chars@[0] == '-'),
            start == (if chars@[0] == '-' || chars@[0] == '+' {
                1usize
            } else {
                0usize
            }),
            limit == (if negative {
                9223372036854775808u64
            } else {
                9223372036854775807u64
            }),
            digits == chars@.skip(start as int),
            chars@.skip(0) == chars@,
            all_digits(digits.take(i - start)),
            acc == number(digits.take(i - start)),
            acc <= limit,
        decreases size - i,
    {
        let code: u32 = chars[i] as u32;
        let ghost done = digits.take(i - start);
        let ghost next = digits.take(i - start + 1);
        proof {
            assert(next.drop_last() =~= done);
            assert(next.last() == chars@[i as int]);
            assert(digits[i - start] == chars@[i as int]);
        }
        if code < 0x30 || code > 0x39 {
            assert(!is_digit(digits[i - start]));
            return None;
        }
        let digit: u64 = (code - 0x30) as u64;
        if acc > (limit - digit) / 10 {
            proof {
                assert(number(next) == acc * 10 + digit);
                lemma_number_grows(digits, i - start + 1);
            }
            return None;
        }
        acc = acc * 10 + digit;
        i += 1;
        proof {
            assert forall|j: int| 0 <= j < next.len() implies is_digit(#[trigger] next[j]) by {
                if j < done.len() {
                    assert(done[j] == next[j]);
                }
            }
        }
    }
    proof {
        assert(digits.take(size - start) =~= digits);
    }
    if negative {
        if acc == 9223372036854775808 {
            Some(i64::MIN)
        } else {
            Some(-(acc as i64))
        }
    } else {
        Some(acc as i64)
    }
}

/// The character is the small letter `letter` or its capital.
pub open spec fn same_letter(c: char, letter: char) -> bool {
    c == letter || c as u32 + 0x20 == letter as u32
}

/// The text is `word`, which is in small letters, in any mix of small
/// letters and capitals.
pub open spec fn is_word(text: Seq<char>, word: Seq<char>) -> bool {
    text.len() == word.len() && forall|i: int|
        0 <= i < text.len() ==> same_letter(#[trigger] text[i], word[i])
}

fn spells(chars: &Vec<char>, word: &str) -> (same: bool)
    ensures
        same == is_word(chars@, word@),
{
    let letters = to_chars(word);
    if chars.len() != letters.len() {
        return false;
    }
    let mut i: usize = 0;
    while i < chars.len()
        invariant
            i <= chars@.len(),
            chars@.len() == letters@.len(),
            letters@ == word@,
            forall|j: int| 0 <= j < i ==> same_letter(#[trigger] chars@[j], word@[j]),
        decreases chars@.len() - i,
    {
        let c: u32 = chars[i] as u32;
        let letter: u32 = letters[i] as u32;
        if !(chars[i] == letters[i] || (c <= 0x10FFFF && c + 0x20 == letter)) {
            proof {
                vstd::utf8::char_is_scalar(chars@[i as int]);
                assert(!same_letter(chars@[i as int], word@[i as int]));
            }
            return false;
        }
        i += 1;
    }
    true
}

/// The boolean that a text stands for: one of the words for yes or for
/// no, in any mix of small letters and capitals, or an integer, which is
/// true unless it is zero.
pub open spec fn parse_bool_spec(text: Seq<char>) -> Option<bool> {
    if is_word(text, "true"@) || is_word(text, "t"@) || is_word(text, "yes"@) || is_word(
        text,
        "y"@,
    ) {
        Some(true)
    } else if is_word(text, "false"@) || is_word(text, "f"@) || is_word(text, "no"@) || is_word(
        text,
        "n"@,
    ) {
        Some(false)
    } else {
        match parse_i64_spec(text) {
            Some(n) => Some(n != 0),
            None => None,
        }
    }
}

/// The boolean that `text` stands for, if it stands for one.
pub fn parse_bool(text: &str) -> (parsed: Option<bool>)
    ensures
        parsed == parse_bool_spec(text@),
{
    let chars = to_chars(text);
    if spells(&chars, "true") || spells(&chars, "t") || spells(&chars, "yes") || spells(
        &chars,
        "y",
    ) {
        Some(true)
    } else if spells(&chars, "false") || spells(&chars, "f") || spells(&chars, "no") || spells(
        &chars,
        "n",
    ) {
        Some(false)
    } else {
        match parse_i64(text) {
            Some(n) => Some(n != 0),
            None => None,
        }
    }
}

/// How the text of a field becomes a value.
#[derive(Clone, Copy, Debug, PartialEq, Eq, Structural)]
pub enum Conversion {
    /// The text as it is, as bytes.
    Bytes,
    /// The integer that the text stands for.
    Integer,
    /// The boolean that the text stands for.
    Boolean,
}

/// Why a conversion failed.
#[derive(Clone, Copy, Debug, PartialEq, Eq, Structural)]
pub enum ConversionError {
    /// No conversion has the given name.
    UnknownConversion,
    /// The text stands for no integer.
    InvalidInteger,
    /// The text stands for no boolean.
    InvalidBoolean,
}

/// The conversion that a name stands for.
pub open spec fn conversion_named(name: Seq<char>) -> Option<Conversion> {
    if name == "asis"@ || name == "bytes"@ || name == "string"@ {
        Some(Conversion::Bytes)
    } else if name == "integer"@ || name == "int"@ {
        Some(Conversion::Integer)
    } else if name == "bool"@ || name == "boolean"@ {
        Some(Conversion::Boolean)
    } else {
        None
    }
}

impl Conversion {
    /// What the conversion makes of a text.
    pub open spec fn convert_spec(self, text: Seq<char>) -> Result<ValueView, ConversionError> {
        match self {
            Conversion::Bytes => Ok(ValueView::Bytes(vstd::utf8::encode_utf8(text))),
            Conversion::Integer => match parse_i64_spec(text) {
                Some(n) => Ok(ValueView::Integer(n)),
                None => Err(ConversionError::InvalidInteger),
            },
            Conversion::Boolean => match parse_bool_spec(text) {
                Some(b) => Ok(ValueView::Boolean(b)),
                None => Err(ConversionError::InvalidBoolean),
            },
        }
    }

    /// The conversion that `name` stands for.
    pub fn parse(name: &str) -> (outcome: Result<Conversion, ConversionError>)
        ensures
            outcome == (match conversion_named(name@) {
                Some(conversion) => Ok::<Conversion, ConversionError>(conversion),
                None => Err(ConversionError::UnknownConversion),
            }),
    {
        if str_eq(name, "asis") || str_eq(name, "bytes") || str_eq(name, "string") {
            Ok(Conversion::Bytes)
        } else if str_eq(name, "integer") || str_eq(name, "int") {
            Ok(Conversion::Integer)
        } else if str_eq(name, "bool") || str_eq(name, "boolean") {
            Ok(Conversion::Boolean)
        } else {
            Err(ConversionError::UnknownConversion)
        }
    }

    /// Converts `text` to a value.
    pub fn convert(&self, text: &str) -> (outcome: Result<Value, ConversionError>)
        ensures
            match outcome {
                Ok(value) => self.convert_spec(text@) == Ok::<ValueView, ConversionError>(value@),
                Err(error) => self.convert_spec(text@) == Err::<ValueView, ConversionError>(error),
            },
    {
        match self {
            Conversion::Bytes => Ok(Value::Bytes(text.as_bytes_vec())),
            Conversion::Integer => match parse_i64(text) {
                Some(n) => Ok(Value::Integer(n)),
                None => Err(ConversionError::InvalidInteger),
            },
            Conversion::Boolean => match parse_bool(text) {
                Some(b) => Ok(Value::Boolean(b)),
                None => Err(ConversionError::InvalidBoolean),
            },
        }
    }
}

} // verus!
