//! Reading numbers and separators out of text.

use std::num::ParseIntError;

use vstd::prelude::*;
use vstd::string::StrSliceExecFns;

verus! {

/// The error of a failed integer parse.
#[verifier::external_type_specification]
#[verifier::external_body]
pub struct ExParseIntError(std::num::ParseIntError);

pub open spec fn is_digit(c: char) -> bool {
    '0' <= c && c <= '9'
}

/// The number that a sequence of decimal digits denotes.
pub open spec fn decimal(digits: Seq<char>) -> nat
    decreases digits.len(),
{
    if digits.len() == 0 {
        0
    } else {
        10 * decimal(digits.drop_last()) + (digits.last() as u32 - '0' as u32) as nat
    }
}

/// `text` without one leading plus sign, if there is one.
pub open spec fn unsigned_part(text: Seq<char>) -> Seq<char> {
    if text.len() > 0 && text[0] == '+' {
        text.skip(1)
    } else {
        text
    }
}

/// The `u64` that `text` denotes: an optional plus sign followed by digits only, at least one.
pub open spec fn u64_value(text: Seq<char>) -> Option<u64> {
    let digits = unsigned_part(text);
    if digits.len() > 0 && (forall|i: int| 0 <= i < digits.len() ==> is_digit(#[trigger] digits[i]))
        && decimal(digits) <= u64::MAX {
        Some(decimal(digits) as u64)
    } else {
        None
    }
}

/// `str::parse::<u64>`: an optional plus sign followed by digits only, at least one, that denote a
/// number in range; everything else is an error. Which of its errors comes back is left open.
#[verifier::external_body]
pub(crate) fn parse_u64(text: &str) -> (r: Result<u64, ParseIntError>)
    ensures
        r is Ok <==> u64_value(text@) is Some,
        r is Ok ==> r->Ok_0 == u64_value(text@)->0,
{
    text.parse::<u64>()
}

/// Whether two strings hold the same characters.
pub fn str_eq(a: &str, b: &str) -> (r: bool)
    ensures
        r == (a@ == b@),
{
    a.to_owned().eq(&b.to_owned())
}

/// `i` is where the last digit of `text` stands.
pub open spec fn is_last_digit(text: Seq<char>, i: int) -> bool {
    &&& 0 <= i < text.len()
    &&& is_digit(text[i])
    &&& forall|j: int| i < j < text.len() ==> !is_digit(#[trigger] text[j])
}

/// Where the last digit of `text` stands.
pub fn last_digit(text: &str) -> (r: Option<usize>)
    ensures
        match r {
            Some(i) => is_last_digit(text@, i as int),
            None => forall|j: int| 0 <= j < text@.len() ==> !is_digit(#[trigger] text@[j]),
        },
{
    let mut i: usize = text.unicode_len();
    while i > 0
        invariant
            i <= text@.len(),
            forall|j: int| i <= j < text@.len() ==> !is_digit(#[trigger] text@[j]),
        decreases i,
    {
        i = i - 1;
        let c = text.get_char(i);
        if '0' <= c && c <= '9' {
            return Some(i);
        }
    }
    None
}

/// `i` is where the first `..` of `text` starts.
pub open spec fn is_first_dots(text: Seq<char>, i: int) -> bool {
    &&& dots_at(text, i)
    &&& forall|j: int| j < i ==> !#[trigger] dots_at(text, j)
}

pub open spec fn dots_at(text: Seq<char>, i: int) -> bool {
    0 <= i && i + 1 < text.len() && text[i] == '.' && text[i + 1] == '.'
}

/// Where the first `..` of `text` starts.
pub fn first_dots(text: &str) -> (r: Option<usize>)
    ensures
        match r {
            Some(i) => is_first_dots(text@, i as int),
            None => forall|j: int| !#[trigger] dots_at(text@, j),
        },
{
    let len: usize = text.unicode_len();
    let mut i: usize = 1;
    while i < len
        invariant
            len == text@.len(),
            1 <= i,
            forall|j: int| j < i - 1 ==> !#[trigger] dots_at(text@, j),
        decreases len - i,
    {
        if text.get_char(i - 1) == '.' && text.get_char(i) == '.' {
            assert(dots_at(text@, i - 1));
            return Some(i - 1);
        }
        i = i + 1;
    }
    None
}

/// A hexadecimal digit, in lower case.
pub open spec fn hex_char(digit: int) -> char {
    if digit == 0 {
        '0'
    } else if digit == 1 {
        '1'
    } else if digit == 2 {
        '2'
    } else if digit == 3 {
        '3'
    } else if digit == 4 {
        '4'
    } else if digit == 5 {
        '5'
    } else if digit == 6 {
        '6'
    } else if digit == 7 {
        '7'
    } else if digit == 8 {
        '8'
    } else if digit == 9 {
        '9'
    } else if digit == 10 {
        'a'
    } else if digit == 11 {
        'b'
    } else if digit == 12 {
        'c'
    } else if digit == 13 {
        'd'
    } else if digit == 14 {
        'e'
    } else {
        'f'
    }
}

/// The number that a hexadecimal digit in lower case stands for; -1 if it is none.
pub open spec fn hex_value(c: char) -> int {
    if '0' <= c && c <= '9' {
        c as u32 - '0' as u32
    } else if 'a' <= c && c <= 'f' {
        c as u32 - 'a' as u32 + 10
    } else {
        -1
    }
}

/// A hexadecimal digit stands for the number that it was made of.
pub proof fn hex_char_spells(digit: int)
    requires
        0 <= digit < 16,
    ensures
        hex_value(hex_char(digit)) == digit,
{
}

} // verus!
