//! Helpers on text: comparison, building strings, decimal numbers.

use vstd::prelude::*;

verus! {

/// Whether two string slices hold the same characters.
///
/// Trusted: this is `str`'s `==` of the standard library, which compares
/// the contents of the two slices.
#[verifier::external_body]
pub(crate) fn str_eq(a: &str, b: &str) -> (same: bool)
    ensures
        same == (a@ == b@),
{
    a == b
}

/// Appends one character to a string.
///
/// Trusted: this is `String::push` of the standard library, which appends
/// the given character to the end of the string.
#[verifier::external_body]
pub(crate) fn push_char(text: &mut String, c: char)
    ensures
        final(text)@ == old(text)@.push(c),
{
    text.push(c)
}

/// The character of a decimal digit.
pub open spec fn digit_char(digit: int) -> char {
    if digit == 0 {
        '0'
    } else if digit == 1 {
        '1'
    } else if digit == 2 {
        '2'
    } else if digit == 3 {
        '3'
    } else if digit == 4 {
        '4'
    } else if digit == 5 {
        '5'
    } else if digit == 6 {
        '6'
    } else if digit == 7 {
        '7'
    } else if digit == 8 {
        '8'
    } else {
        '9'
    }
}

/// The decimal numeral of a natural number, without leading zeros.
pub open spec fn decimal(n: nat) -> Seq<char>
    decreases n,
{
    if n < 10 {
        seq![digit_char(n as int)]
    } else {
        decimal(n / 10).push(digit_char((n % 10) as int))
    }
}

/// The decimal numeral of an integer: a minus sign before a negative one.
pub open spec fn signed_decimal(n: int) -> Seq<char> {
    if n < 0 {
        seq!['-'] + decimal((-n) as nat)
    } else {
        decimal(n as nat)
    }
}

/// The sequence read from its end.
pub open spec fn reversed(s: Seq<char>) -> Seq<char> {
    Seq::new(s.len(), |i: int| s[s.len() - 1 - i])
}

fn digit_of(digit: u64) -> (c: char)
    requires
        digit < 10,
    ensures
        c == digit_char(digit as int),
{
    if digit == 0 {
        '0'
    } else if digit == 1 {
        '1'
    } else if digit == 2 {
        '2'
    } else if digit == 3 {
        '3'
    } else if digit == 4 {
        '4'
    } else if digit == 5 {
        '5'
    } else if digit == 6 {
        '6'
    } else if digit == 7 {
        '7'
    } else if digit == 8 {
        '8'
    } else {
        '9'
    }
}

/// Appends the decimal numeral of `n` to `text`.
pub fn push_decimal(text: &mut String, n: u64)
    ensures
        final(text)@ == old(text)@ + decimal(n as nat),
{
    let mut low: Vec<char> = Vec::new();
    let mut rest: u64 = n;
    while rest >= 10
        invariant
            decimal(n as nat) == decimal(rest as nat) + reversed(low@),
        decreases rest,
    {
        let digit = digit_of(rest % 10);
        proof {
            let grown = low@.push(digit);
            assert(decimal(rest as nat) == decimal((rest / 10) as nat).push(digit));
            assert(decimal((rest / 10) as nat).push(digit) + reversed(low@) =~= decimal(
                (rest / 10) as nat,
            ) + reversed(grown));
        }
        low.push(digit);
        rest = rest / 10;
    }
    push_char(text, digit_of(rest));
    let mut i: usize = low.len();
    while i > 0
        invariant
            i <= low@.len(),
            rest < 10,
            text@ == old(text)@ + decimal(rest as nat) + reversed(low@).take(low@.len() - i),
        decreases i,
    {
        i -= 1;
        proof {
            let done = reversed(low@).take(low@.len() - i - 1);
            assert(reversed(low@).take(low@.len() - i) =~= done.push(low@[i as int]));
            assert((old(text)@ + decimal(rest as nat) + done).push(low@[i as int]) =~= old(text)@
                + decimal(rest as nat) + done.push(low@[i as int]));
        }
        push_char(text, low[i]);
    }
    proof {
        assert(reversed(low@).take(low@.len() as int) =~= reversed(low@));
        assert(old(text)@ + decimal(rest as nat) + reversed(low@) =~= old(text)@ + (decimal(
            rest as nat,
        ) + reversed(low@)));
    }
}

/// The decimal numeral of `n`.
pub fn u64_to_string(n: u64) -> (text: String)
    ensures
        text@ == decimal(n as nat),
{
    let mut text = String::new();
    push_decimal(&mut text, n);
    assert(Seq::<char>::empty() + decimal(n as nat) =~= decimal(n as nat));
    text
}

/// The decimal numeral of `n`, with a minus sign if it is negative.
pub fn i64_to_string(n: i64) -> (text: String)
    ensures
        text@ == signed_decimal(n as int),
{
    let mut text = String::new();
    if n < 0 {
        push_char(&mut text, '-');
        let magnitude: u64 = ((-(n + 1)) as u64) + 1;
        push_decimal(&mut text, magnitude);
        assert(Seq::<char>::empty().push('-') =~= seq!['-']);
    } else {
        push_decimal(&mut text, n as u64);
        assert(Seq::<char>::empty() + decimal(n as nat) =~= decimal(n as nat));
    }
    text
}

/// The characters of a text, one by one.
pub fn to_chars(text: &str) -> (chars: Vec<char>)
    ensures
        chars@ == text@,
{
    let mut chars: Vec<char> = Vec::new();
    for c in it: text.chars()
        invariant
            it.seq() == text@,
            chars@ == it.seq().take(it.index@),
    {
        proof {
            assert(it.seq().take(it.index@ + 1) =~= it.seq().take(it.index@).push(c));
        }
        chars.push(c);
    }
    proof {
        assert(text@.take(text@.len() as int) =~= text@);
    }
    chars
}

/// `needle` stands in `text` at place `at`.
pub open spec fn matches_at(text: Seq<char>, needle: Seq<char>, at: int) -> bool {
    0 <= at && at + needle.len() <= text.len() && text.subrange(at, at + needle.len()) == needle
}

/// The first place from `from` on at which `needle` stands in `text`.
pub open spec fn find_from(text: Seq<char>, needle: Seq<char>, from: int) -> Option<int>
    decreases text.len() + 1 - from,
{
    if from < 0 || from + needle.len() > text.len() {
        None
    } else if matches_at(text, needle, from) {
        Some(from)
    } else {
        find_from(text, needle, from + 1)
    }
}

/// What `find_from` returns is a place of `needle`, not before `from`, and
/// the first such place; it returns none only where there is none.
pub proof fn lemma_find_from(text: Seq<char>, needle: Seq<char>, from: int)
    requires
        0 <= from,
    ensures
        match find_from(text, needle, from) {
            Some(at) => {
                &&& from <= at
                &&& matches_at(text, needle, at)
                &&& forall|i: int| from <= i < at ==> !matches_at(text, needle, i)
            },
            None => forall|i: int| from <= i ==> !matches_at(text, needle, i),
        },
    decreases text.len() + 1 - from,
{
    if from + needle.len() <= text.len() && !matches_at(text, needle, from) {
        lemma_find_from(text, needle, from + 1);
    }
}

/// `text` holds `needle` somewhere.
pub open spec fn contains_text(text: Seq<char>, needle: Seq<char>) -> bool {
    find_from(text, needle, 0) is Some
}

/// Whether `needle` stands in `text` at place `at`.
pub fn is_at(text: &Vec<char>, needle: &Vec<char>, at: usize) -> (found: bool)
    ensures
        found == matches_at(text@, needle@, at as int),
{
    if needle.len() > text.len() || at > text.len() - needle.len() {
        return false;
    }
    let size = text.len();
    let mut k: usize = 0;
    while k < needle.len()
        invariant
            k <= needle@.len(),
            size == text@.len(),
            at + needle@.len() <= text@.len(),
            forall|j: int| 0 <= j < k ==> text@[at + j] == needle@[j],
        decreases needle@.len() - k,
    {
        if text[at + k] != needle[k] {
            proof {
                let window = text@.subrange(at as int, at + needle@.len());
                assert(window[k as int] != needle@[k as int]);
            }
            return false;
        }
        k += 1;
    }
    assert(text@.subrange(at as int, at + needle@.len()) =~= needle@);
    true
}

/// The first place from `from` on at which `needle` stands in `text`.
pub fn find(text: &Vec<char>, needle: &Vec<char>, from: usize) -> (found: Option<usize>)
    ensures
        match found {
            Some(at) => find_from(text@, needle@, from as int) == Some(at as int),
            None => find_from(text@, needle@, from as int) is None,
        },
{
    if needle.len() > text.len() || from > text.len() - needle.len() {
        return None;
    }
    let last = text.len() - needle.len();
    let mut at: usize = from;
    loop
        invariant
            from <= at <= last,
            last + needle@.len() == text@.len(),
            find_from(text@, needle@, from as int) == find_from(text@, needle@, at as int),
        decreases last - at,
    {
        if is_at(text, needle, at) {
            return Some(at);
        }
        if at == last {
            assert(find_from(text@, needle@, at + 1) is None);
            return None;
        }
        at += 1;
    }
}

/// Whether `text` holds `needle` somewhere.
pub fn contains(text: &str, needle: &str) -> (found: bool)
    ensures
        found == contains_text(text@, needle@),
{
    let text = to_chars(text);
    let needle = to_chars(needle);
    find(&text, &needle, 0).is_some()
}

/// The characters that separate words: those that Unicode gives the
/// property `White_Space`.
pub open spec fn is_whitespace(c: char) -> bool {
    let code = c as u32;
    ||| 0x09 <= code <= 0x0D
    ||| code == 0x20
    ||| code == 0x85
    ||| code == 0xA0
    ||| code == 0x1680
    ||| 0x2000 <= code <= 0x200A
    ||| code == 0x2028
    ||| code == 0x2029
    ||| code == 0x202F
    ||| code == 0x205F
    ||| code == 0x3000
}

/// Whether the character separates words.
pub fn separates_words(c: char) -> (white: bool)
    ensures
        white == is_whitespace(c),
{
    let code: u32 = c as u32;
    (0x09 <= code && code <= 0x0D) || code == 0x20 || code == 0x85 || code == 0xA0 || code
        == 0x1680 || (0x2000 <= code && code <= 0x200A) || code == 0x2028 || code == 0x2029
        || code == 0x202F || code == 0x205F || code == 0x3000
}

} // verus!
