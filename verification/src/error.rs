//! The closed set of reasons for which a lexing attempt fails.

use vstd::prelude::*;

verus! {

/// The error of std's integer parsing, carried as an opaque cause.
#[verifier::external_type_specification]
#[verifier::external_body]
pub struct ExParseIntError(std::num::ParseIntError);

/// The error of the network-address parser, carried as an opaque cause.
#[verifier::external_type_specification]
#[verifier::external_body]
pub struct ExNetworkParseError(cidr::errors::NetworkParseError);

/// The error of the regular-expression parser, carried as an opaque cause.
#[verifier::external_type_specification]
#[verifier::external_body]
pub struct ExRegexError(regex::Error);

/// Why a lexing attempt failed.
#[derive(Debug, PartialEq)]
pub enum LexErrorKind {
    /// A named construct was expected and is absent.
    ExpectedName(&'static str),
    /// An exact literal was expected and is absent.
    ExpectedLiteral(&'static str),
    /// Digits could not be parsed as an integer in the given radix.
    ParseInt { err: std::num::ParseIntError, radix: u32 },
    /// A network-address literal could not be parsed.
    ParseNetwork(cidr::errors::NetworkParseError),
    /// A regular-expression literal could not be parsed.
    ParseRegex(regex::Error),
    /// A backslash was followed by something that is no escape.
    InvalidCharacterEscape,
    /// A quoted literal was never closed.
    MissingEndingQuote,
    /// A counted repetition of `name`s found `actual` where `expected` were due.
    CountMismatch { name: &'static str, actual: usize, expected: usize },
    /// A field name that is not known.
    UnknownField,
    /// The operator named `op` cannot be used on the type named `lhs`.
    UnsupportedOp { lhs: &'static str, op: &'static str },
    /// No recognisable input is left.
    EOF,
}

/// A failure kind and the span of input at which it occurred.
pub type LexError<'a> = (LexErrorKind, &'a str);

/// A value with the unconsumed remainder, or a positioned failure.
pub type LexResult<'a, T> = Result<(T, &'a str), LexError<'a>>;

/// What a failed attempt reports, with the span by its characters; `None` for a success.
pub open spec fn failure<T>(res: Result<T, LexError<'_>>) -> Option<(LexErrorKind, Seq<char>)> {
    match res {
        Ok(_) => None,
        Err((kind, at)) => Some((kind, at@)),
    }
}

} // verus!
