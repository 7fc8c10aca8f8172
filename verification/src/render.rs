//! The message that each failure kind renders to.

use crate::error::LexErrorKind;
use std::num::ParseIntError;
use vstd::prelude::*;
use vstd::string::*;

verus! {

/// The character that writes the decimal digit `d`.
pub open spec fn digit_char(d: nat) -> char {
    if d == 0 {
        '0'
    } else if d == 1 {
        '1'
    } else if d == 2 {
        '2'
    } else if d == 3 {
        '3'
    } else if d == 4 {
        '4'
    } else if d == 5 {
        '5'
    } else if d == 6 {
        '6'
    } else if d == 7 {
        '7'
    } else if d == 8 {
        '8'
    } else {
        '9'
    }
}

/// `n` written in decimal, without leading zeros.
pub open spec fn decimal(n: nat) -> Seq<char>
    decreases n,
{
    if n < 10 {
        seq![digit_char(n)]
    } else {
        decimal(n / 10).push(digit_char(n % 10))
    }
}

/// What std's `Debug` writes for a text: the text in double quotes, with
/// quotes, backslashes and unprintable characters escaped.
pub uninterp spec fn debug_text(s: Seq<char>) -> Seq<char>;

/// std's `Debug` formatting of a string slice.
#[verifier::external_body]
fn quoted(s: &str) -> (text: String)
    ensures
        text@ == debug_text(s@),
{
    format!("{:?}", s)
}

fn digit_text(d: usize) -> (text: &'static str)
    requires
        d < 10,
    ensures
        text@ == seq![digit_char(d as nat)],
{
    proof {
        reveal_strlit("0");
        reveal_strlit("1");
        reveal_strlit("2");
        reveal_strlit("3");
        reveal_strlit("4");
        reveal_strlit("5");
        reveal_strlit("6");
        reveal_strlit("7");
        reveal_strlit("8");
        reveal_strlit("9");
    }
    let text = if d == 0 {
        "0"
    } else if d == 1 {
        "1"
    } else if d == 2 {
        "2"
    } else if d == 3 {
        "3"
    } else if d == 4 {
        "4"
    } else if d == 5 {
        "5"
    } else if d == 6 {
        "6"
    } else if d == 7 {
        "7"
    } else if d == 8 {
        "8"
    } else {
        "9"
    };
    assert(text@ =~= seq![digit_char(d as nat)]);
    text
}

/// Appends `n` in decimal to `text`.
fn push_decimal(text: &mut String, n: usize)
    ensures
        final(text)@ == old(text)@ + decimal(n as nat),
    decreases n,
{
    if n >= 10 {
        push_decimal(text, n / 10);
    }
    text.append(digit_text(n % 10));
    proof {
        if n >= 10 {
            assert(old(text)@ + decimal((n / 10) as nat) + seq![digit_char((n % 10) as nat)]
                =~= old(text)@ + decimal(n as nat));
        }
    }
}

/// `text` is the message of `kind`. The message of a wrapped cause is
/// whatever the cause displays as.
pub open spec fn renders(kind: &LexErrorKind, text: Seq<char>) -> bool {
    match kind {
        LexErrorKind::ExpectedName(name) => text == "expected "@ + name@,
        LexErrorKind::ExpectedLiteral(s) => text == "expected literal "@ + debug_text(s@),
        LexErrorKind::ParseInt { err, radix } => exists|cause: String|
            #[trigger] to_string_from_display_ensures::<ParseIntError>(err, cause) && text
                == cause@ + " while parsing with radix "@ + decimal(*radix as nat),
        LexErrorKind::ParseNetwork(err) => exists|cause: String|
            #[trigger] to_string_from_display_ensures::<cidr::errors::NetworkParseError>(
                err,
                cause,
            ) && text == cause@,
        LexErrorKind::ParseRegex(err) => exists|cause: String|
            #[trigger] to_string_from_display_ensures::<regex::Error>(err, cause) && text
                == cause@,
        LexErrorKind::InvalidCharacterEscape => text == "expected \", xHH or OOO after \\"@,
        LexErrorKind::MissingEndingQuote => text == "could not find an ending quote"@,
        LexErrorKind::CountMismatch { name, actual, expected } => text == "expected "@ + decimal(
            *expected as nat,
        ) + " "@ + name@ + "s, but found "@ + decimal(*actual as nat),
        LexErrorKind::UnknownField => text == "unknown field"@,
        LexErrorKind::UnsupportedOp { lhs, op } => text == "cannot use operation "@ + op@
            + " on type "@ + lhs@,
        LexErrorKind::EOF => text == "unrecognised input"@,
    }
}

impl LexErrorKind {
    /// The message that describes this failure to a reader.
    pub fn message(&self) -> (text: String)
        ensures
            renders(self, text@),
    {
        match self {
            LexErrorKind::ExpectedName(name) => String::from_str("expected ").concat(name),
            LexErrorKind::ExpectedLiteral(s) => {
                let literal = quoted(s);
                String::from_str("expected literal ").concat(literal.as_str())
            },
            LexErrorKind::ParseInt { err, radix } => {
                let mut text = err.to_string();
                text.append(" while parsing with radix ");
                push_decimal(&mut text, *radix as usize);
                text
            },
            LexErrorKind::ParseNetwork(err) => err.to_string(),
            LexErrorKind::ParseRegex(err) => err.to_string(),
            LexErrorKind::InvalidCharacterEscape => String::from_str(
                "expected \", xHH or OOO after \\",
            ),
            LexErrorKind::MissingEndingQuote => String::from_str("could not find an ending quote"),
            LexErrorKind::CountMismatch { name, actual, expected } => {
                let mut text = String::from_str("expected ");
                push_decimal(&mut text, *expected);
                text.append(" ");
                text.append(name);
                text.append("s, but found ");
                push_decimal(&mut text, *actual);
                text
            },
            LexErrorKind::UnknownField => String::from_str("unknown field"),
            LexErrorKind::UnsupportedOp { lhs, op } => {
                let mut text = String::from_str("cannot use operation ");
                text.append(op);
                text.append(" on type ");
                text.append(lhs);
                text
            },
            LexErrorKind::EOF => String::from_str("unrecognised input"),
        }
    }
}

} // verus!
