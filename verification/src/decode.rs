//! Decoding of the bytes of attributes and texts: UTF-8 strings and
//! non-negative integers.

use crate::error::{DictError, ErrorView};
use vstd::prelude::*;
use vstd::string::*;
use vstd::utf8::*;

verus! {

/// The text that `bytes` encode in UTF-8, if they encode one.
pub open spec fn utf8_text(bytes: Seq<u8>) -> Option<Seq<char>> {
    if valid_utf8(bytes) {
        Some(decode_utf8(bytes))
    } else {
        None
    }
}

/// Whether `c` is one of the ten decimal digits.
pub open spec fn is_digit(c: char) -> bool {
    48 <= c as u32 <= 57
}

/// The number that the digit `c` stands for.
pub open spec fn digit_value(c: char) -> nat {
    (c as u32 - 48) as nat
}

/// The number that a sequence of digits denotes in base ten.
pub open spec fn digits_value(s: Seq<char>) -> nat
    decreases s.len(),
{
    if s.len() == 0 {
        0
    } else {
        digits_value(s.drop_last()) * 10 + digit_value(s.last())
    }
}

/// Whether every character of `s` is a decimal digit.
pub open spec fn all_digits(s: Seq<char>) -> bool {
    forall|i: int| 0 <= i < s.len() ==> is_digit(#[trigger] s[i])
}

/// The number that `s` denotes as a non-negative integer literal: an
/// optional `+`, then one or more decimal digits whose value fits `usize`.
pub open spec fn decimal_usize(s: Seq<char>) -> Option<usize> {
    let digits = if s.len() > 0 && s[0] == '+' {
        s.drop_first()
    } else {
        s
    };
    if digits.len() > 0 && all_digits(digits) && digits_value(digits) <= usize::MAX {
        Some(digits_value(digits) as usize)
    } else {
        None
    }
}

/// The integer that `bytes` denote: they must be UTF-8, and the text a
/// non-negative integer literal.
pub open spec fn integer_of(bytes: Seq<u8>) -> Result<usize, ErrorView> {
    match utf8_text(bytes) {
        None => Err(ErrorView::Utf8),
        Some(s) => match decimal_usize(s) {
            None => Err(ErrorView::ParseInt),
            Some(n) => Ok(n),
        },
    }
}

/// Calls `std::str::from_utf8`, which checks that the bytes are valid UTF-8
/// and then hands them out as a string slice, and fails otherwise.
#[verifier::external_body]
fn str_from_utf8(b: &[u8]) -> (r: Result<&str, std::str::Utf8Error>)
    ensures
        match r {
            Ok(s) => valid_utf8(b@) && s@ == decode_utf8(b@),
            Err(_) => !valid_utf8(b@),
        },
{
    std::str::from_utf8(b)
}

/// Calls `str::parse` for `usize`, which accepts an optional `+` sign
/// followed by decimal digits only, and fails on an empty string, on any
/// other character and on a value that does not fit.
#[verifier::external_body]
fn parse_usize(s: &str) -> (r: Result<usize, std::num::ParseIntError>)
    ensures
        match r {
            Ok(n) => decimal_usize(s@) == Some(n),
            Err(_) => decimal_usize(s@) is None,
        },
{
    s.parse::<usize>()
}

/// Decodes bytes as a UTF-8 string.
pub fn string_from_bytes(b: &[u8]) -> (r: Result<String, std::str::Utf8Error>)
    ensures
        match r {
            Ok(s) => utf8_text(b@) == Some(s@),
            Err(_) => utf8_text(b@) is None,
        },
{
    match str_from_utf8(b) {
        Ok(s) => Ok(String::from_str(s)),
        Err(e) => Err(e),
    }
}

/// Decodes bytes as a non-negative integer written in decimal digits.
pub fn integer_from_bytes(b: &[u8]) -> (r: Result<usize, DictError>)
    ensures
        match r {
            Ok(n) => integer_of(b@) == Ok::<usize, ErrorView>(n),
            Err(e) => integer_of(b@) == Err::<usize, ErrorView>(e@),
        },
{
    match str_from_utf8(b) {
        Ok(s) => match parse_usize(s) {
            Ok(n) => Ok(n),
            Err(e) => Err(DictError::ParseIntError { source: e }),
        },
        Err(e) => Err(DictError::Utf8 { source: e }),
    }
}

/// The character that stands for a digit below ten.
pub open spec fn digit_char(d: nat) -> char {
    if d == 0 {
        '0'
    } else if d == 1 {
        '1'
    } else if d == 2 {
        '2'
    } else if d == 3 {
        '3'
    } else if d == 4 {
        '4'
    } else if d == 5 {
        '5'
    } else if d == 6 {
        '6'
    } else if d == 7 {
        '7'
    } else if d == 8 {
        '8'
    } else {
        '9'
    }
}

/// The number `n` written in decimal digits, without leading zeros.
pub open spec fn decimal_text(n: nat) -> Seq<char>
    decreases n,
{
    if n < 10 {
        seq![digit_char(n)]
    } else {
        decimal_text(n / 10).push(digit_char(n % 10))
    }
}

/// The digit below ten as a string of one character.
fn digit_str(d: usize) -> (r: &'static str)
    requires
        d < 10,
    ensures
        r@ == seq![digit_char(d as nat)],
{
    proof {
        reveal_strlit("0");
        reveal_strlit("1");
        reveal_strlit("2");
        reveal_strlit("3");
        reveal_strlit("4");
        reveal_strlit("5");
        reveal_strlit("6");
        reveal_strlit("7");
        reveal_strlit("8");
        reveal_strlit("9");
    }
    let r = if d == 0 {
        "0"
    } else if d == 1 {
        "1"
    } else if d == 2 {
        "2"
    } else if d == 3 {
        "3"
    } else if d == 4 {
        "4"
    } else if d == 5 {
        "5"
    } else if d == 6 {
        "6"
    } else if d == 7 {
        "7"
    } else if d == 8 {
        "8"
    } else {
        "9"
    };
    assert(r@ =~= seq![digit_char(d as nat)]);
    r
}

/// Writes a number in decimal digits.
pub fn usize_to_string(n: usize) -> (r: String)
    ensures
        r@ == decimal_text(n as nat),
    decreases n,
{
    if n < 10 {
        String::from_str(digit_str(n))
    } else {
        let mut r = usize_to_string(n / 10);
        r.append(digit_str(n % 10));
        assert(r@ =~= decimal_text(n as nat));
        r
    }
}

/// The text `prefix`, then `text`, then a closing single quote.
pub open spec fn quoted(prefix: Seq<char>, text: Seq<char>) -> Seq<char> {
    prefix + text + seq!['\'']
}

/// Builds a message that quotes `text` after `prefix`.
pub fn quote(prefix: &str, text: &str) -> (r: String)
    ensures
        r@ == quoted(prefix@, text@),
{
    proof {
        reveal_strlit("'");
    }
    let mut r = String::from_str(prefix);
    r.append(text);
    r.append("'");
    assert("'"@ =~= seq!['\'']);
    r
}

/// Whether two byte slices hold the same bytes.
pub fn bytes_eq(a: &[u8], b: &[u8]) -> (r: bool)
    ensures
        r == (a@ == b@),
{
    if a.len() != b.len() {
        return false;
    }
    let mut i: usize = 0;
    while i < a.len()
        invariant
            i <= a.len(),
            a.len() == b.len(),
            forall|j: int| 0 <= j < i ==> a@[j] == b@[j],
        decreases a.len() - i,
    {
        if a[i] != b[i] {
            return false;
        }
        i = i + 1;
    }
    assert(a@ =~= b@);
    true
}

/// A number written in decimal digits is made of digits only, and they
/// denote the number.
pub proof fn lemma_decimal_text(n: nat)
    ensures
        decimal_text(n).len() > 0,
        all_digits(decimal_text(n)),
        digits_value(decimal_text(n)) == n,
    decreases n,
{
    let text = decimal_text(n);
    if n < 10 {
        assert(text.drop_last() =~= Seq::<char>::empty());
        assert(digits_value(text.drop_last()) == 0);
    } else {
        lemma_decimal_text(n / 10);
        assert(text.drop_last() =~= decimal_text(n / 10));
        assert(text.last() == digit_char(n % 10));
    }
}

/// The digits that [`usize_to_string`] writes denote the number again,
/// as [`integer_from_bytes`] reads them.
pub proof fn lemma_decimal_round_trip(n: usize)
    ensures
        decimal_usize(decimal_text(n as nat)) == Some(n),
{
    lemma_decimal_text(n as nat);
}

} // verus!
