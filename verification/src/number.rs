//! Bytes written as a fixed number of digits, as escapes use them.

use crate::combinators::{stays_within, take};
use crate::error::{failure, LexErrorKind, LexResult};
use crate::text::byte_prefix;
use std::num::ParseIntError;
use vstd::prelude::*;
use vstd::utf8::*;

verus! {

/// The value of a digit: `0` to `9`, then the letters of either case from 10 on.
pub open spec fn digit_value(c: char) -> Option<int> {
    if '0' <= c <= '9' {
        Some(c as int - '0' as int)
    } else if 'a' <= c <= 'z' {
        Some(c as int - 'a' as int + 10)
    } else if 'A' <= c <= 'Z' {
        Some(c as int - 'A' as int + 10)
    } else {
        None
    }
}

/// `c` is a digit of the given radix.
pub open spec fn is_digit(c: char, radix: u32) -> bool {
    match digit_value(c) {
        Some(d) => d < radix,
        None => false,
    }
}

/// Every character of `s` is a digit of the given radix.
pub open spec fn all_digits(s: Seq<char>, radix: u32) -> bool {
    forall|i: int| 0 <= i < s.len() ==> is_digit(#[trigger] s[i], radix)
}

/// The number that the digits `s` write in the given radix, most significant first.
pub open spec fn digits_value(s: Seq<char>, radix: u32) -> int
    decreases s.len(),
{
    if s.len() == 0 {
        0
    } else {
        digits_value(s.drop_last(), radix) * radix + digit_value(s.last()).unwrap_or(0)
    }
}

/// The byte that `s` writes in the given radix: an optional `+`, then at
/// least one digit and nothing else, with a value of at most 255.
pub open spec fn radix_u8(s: Seq<char>, radix: u32) -> Option<u8> {
    let digits = if s.len() > 0 && s[0] == '+' {
        s.drop_first()
    } else {
        s
    };
    if digits.len() > 0 && all_digits(digits, radix) && digits_value(digits, radix) <= 255 {
        Some(digits_value(digits, radix) as u8)
    } else {
        None
    }
}

/// The error that std's integer parser reports for a text that writes no
/// byte in the given radix. It says whether the text was empty, held something
/// that is no digit, or wrote too large a number.
pub uninterp spec fn radix_failure(s: Seq<char>, radix: u32) -> ParseIntError;

/// std's `u8::from_str_radix`. It accepts an optional `+` followed by digits
/// of the radix and nothing else, and fails where the value exceeds a byte;
/// its error depends on the text and the radix alone.
#[verifier::external_body]
fn parse_u8(digits: &str, radix: u32) -> (parsed: Result<u8, ParseIntError>)
    requires
        2 <= radix <= 36,
    ensures
        match parsed {
            Ok(b) => radix_u8(digits@, radix) == Some(b),
            Err(err) => radix_u8(digits@, radix) is None && err == radix_failure(digits@, radix),
        },
{
    u8::from_str_radix(digits, radix)
}

/// Turns the parser's verdict on the digit window into the lexer's result: the
/// byte with what follows the window, or the parser's error at the window.
pub fn byte_outcome<'a>(
    parsed: Result<u8, ParseIntError>,
    digits: &'a str,
    rest: &'a str,
    radix: u32,
) -> (res: LexResult<'a, u8>)
    ensures
        match parsed {
            Ok(b) => res == Ok::<(u8, &str), (LexErrorKind, &str)>((b, rest)),
            Err(err) => res == Err::<(u8, &str), (LexErrorKind, &str)>(
                (LexErrorKind::ParseInt { err, radix }, digits),
            ),
        },
{
    match parsed {
        Ok(b) => Ok((b, rest)),
        Err(err) => Err((LexErrorKind::ParseInt { err, radix }, digits)),
    }
}

/// What a fixed-width byte lexer returns. With fewer than `width` bytes of
/// input it is a count mismatch at the whole input. Otherwise the first
/// `width` bytes are the digit window: the byte they write comes with the text
/// behind the window, and where they write none the parse error comes at the
/// window itself.
pub open spec fn fixed_byte_outcome(
    input: Seq<char>,
    width: usize,
    radix: u32,
    res: LexResult<'_, u8>,
) -> bool {
    let digits = byte_prefix(input, width as int);
    if encode_utf8(input).len() < width {
        failure(res) == Some(
            (
                LexErrorKind::CountMismatch {
                    name: "character",
                    actual: encode_utf8(input).len() as usize,
                    expected: width,
                },
                input,
            ),
        )
    } else {
        match radix_u8(digits, radix) {
            Some(b) => res matches Ok((value, rest)) && value == b && digits + rest@ == input,
            None => failure(res) == Some(
                (LexErrorKind::ParseInt { err: radix_failure(digits, radix), radix }, digits),
            ),
        }
    }
}

/// Lexes a byte written as `digits` bytes of digits in the given radix.
fn fixed_byte<'a>(input: &'a str, digits: usize, radix: u32) -> (res: LexResult<'a, u8>)
    requires
        2 <= radix <= 36,
        digits <= encode_utf8(input@).len() ==> is_char_boundary(
            encode_utf8(input@),
            digits as int,
        ),
    ensures
        stays_within(input@, res),
        fixed_byte_outcome(input@, digits, radix, res),
{
    match take(input, digits) {
        Ok((window, rest)) => {
            proof {
                encode_utf8_decode_utf8(window@);
                assert(window@ =~= (window@ + rest@).subrange(0, window@.len() as int));
                assert(rest@ =~= (window@ + rest@).subrange(
                    window@.len() as int,
                    (window@ + rest@).len() as int,
                ));
            }
            byte_outcome(parse_u8(window, radix), window, rest, radix)
        },
        Err(e) => Err(e),
    }
}

/// Lexes a byte written as two hexadecimal digits. The window is two bytes
/// wide, so a character must start behind the second byte.
pub fn hex_byte<'a>(input: &'a str) -> (res: LexResult<'a, u8>)
    requires
        2 <= encode_utf8(input@).len() ==> is_char_boundary(encode_utf8(input@), 2),
    ensures
        stays_within(input@, res),
        fixed_byte_outcome(input@, 2, 16, res),
{
    fixed_byte(input, 2, 16)
}

/// Lexes a byte written as three octal digits. The window is three bytes
/// wide, so a character must start behind the third byte.
pub fn oct_byte<'a>(input: &'a str) -> (res: LexResult<'a, u8>)
    requires
        3 <= encode_utf8(input@).len() ==> is_char_boundary(encode_utf8(input@), 3),
    ensures
        stays_within(input@, res),
        fixed_byte_outcome(input@, 3, 8, res),
{
    fixed_byte(input, 3, 8)
}

} // verus!
