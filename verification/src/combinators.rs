//! The lexing contract and the primitive recognisers built on it.

use crate::error::{failure, LexError, LexErrorKind, LexResult};
use crate::text::{
    consumed, is_subslice, lemma_boundary_after_prefix, lemma_encode_concat,
    lemma_encode_injective, lemma_encode_nonempty, lemma_split_chars,
};
use std::str::Chars;
use vstd::std_specs::iter::IteratorSpec;
use vstd::prelude::*;
use vstd::string::*;
use vstd::utf8::*;

verus! {

broadcast use vstd::string::group_string_axioms;

/// What every lexer owes its caller: on success the remainder is a suffix of
/// the input, on failure the reported span lies inside the input.
pub open spec fn stays_within<T>(input: Seq<char>, res: LexResult<'_, T>) -> bool {
    match res {
        Ok((_, rest)) => rest@.is_suffix_of(input),
        Err((_, at)) => is_subslice(at@, input),
    }
}

/// A type that can be recognised at the front of a text.
pub trait Lex<'a>: Sized {
    /// Recognises one value at the front of `input`.
    fn lex(input: &'a str) -> (res: LexResult<'a, Self>)
        ensures
            stays_within(input@, res),
    ;
}

/// std's `Chars::as_str`: the text that the iterator has not walked yet.
pub assume_specification<'a>[ Chars::<'a>::as_str ](chars: &Chars<'a>) -> (rest: &'a str)
    ensures
        rest@ == chars.remaining(),
;

/// std's `str::starts_with` with a string pattern: whether `prefix` stands,
/// character for character, at the front of `input`.
#[verifier::external_body]
fn starts_with(input: &str, prefix: &str) -> (found: bool)
    ensures
        found == prefix@.is_prefix_of(input@),
{
    input.starts_with(prefix)
}

/// The number of bytes that `s` occupies.
fn byte_len(s: &str) -> (n: usize)
    ensures
        n == encode_utf8(s@).len(),
{
    s.as_bytes().len()
}

/// What `expect` returns: the text behind the literal where the input starts
/// with it, else the literal as what was expected, at the whole input.
pub open spec fn expect_outcome(
    input: Seq<char>,
    s: &'static str,
    res: Result<&str, LexError<'_>>,
) -> bool {
    if s@.is_prefix_of(input) {
        res matches Ok(rest) && rest@ == input.skip(s@.len() as int)
    } else {
        failure(res) == Some((LexErrorKind::ExpectedLiteral(s), input))
    }
}

/// Matches the literal `s` at the front of `input` and returns what follows it.
pub fn expect<'a>(input: &'a str, s: &'static str) -> (res: Result<&'a str, LexError<'a>>)
    ensures
        res matches Ok(rest) ==> rest@.is_suffix_of(input@),
        res matches Err((_, at)) ==> is_subslice(at@, input@),
        expect_outcome(input@, s, res),
{
    if starts_with(input, s) {
        proof {
            let rest = input@.skip(s@.len() as int);
            assert(input@ =~= s@ + rest);
            lemma_encode_concat(s@, rest);
            lemma_boundary_after_prefix(s@, rest);
        }
        let (_, rest) = input.split_at(byte_len(s));
        proof {
            let tail = input@.skip(s@.len() as int);
            assert(input@ =~= s@ + tail);
            lemma_encode_concat(s@, tail);
            assert(rest.spec_bytes() =~= encode_utf8(tail));
            lemma_encode_injective(rest@, tail);
        }
        Ok(rest)
    } else {
        proof {
            assert(input@ =~= input@.subrange(0, input@.len() as int));
        }
        Err((LexErrorKind::ExpectedLiteral(s), input))
    }
}

/// The text that was consumed from `input` when `rest` is what remains of it.
pub fn span<'a>(input: &'a str, rest: &'a str) -> (res: &'a str)
    requires
        rest@.is_suffix_of(input@),
    ensures
        res@ == consumed(input@, rest@),
        res@ + rest@ == input@,
{
    proof {
        let front = consumed(input@, rest@);
        assert(input@ =~= front + rest@);
        lemma_encode_concat(front, rest@);
        lemma_boundary_after_prefix(front, rest@);
    }
    let (front, _) = input.split_at(byte_len(input) - byte_len(rest));
    proof {
        let head = consumed(input@, rest@);
        assert(front.spec_bytes() =~= encode_utf8(head));
        lemma_encode_injective(front@, head);
    }
    front
}

/// `k` characters at the front of `s` are accepted by `f`, and the one after them is not.
pub open spec fn accepts_exactly<F: Fn(char) -> bool>(f: F, s: Seq<char>, k: int) -> bool {
    &&& 0 <= k <= s.len()
    &&& forall|i: int| 0 <= i < k ==> f.ensures((#[trigger] s[i],), true)
    &&& k < s.len() ==> f.ensures((s[k],), false)
}

/// What `take_while` returns: the longest run of accepted characters and what
/// follows it, or, where that run is empty, `name` as what was expected, at the
/// whole input.
pub open spec fn take_while_outcome<F: Fn(char) -> bool>(
    f: F,
    input: Seq<char>,
    name: &'static str,
    res: LexResult<'_, &str>,
) -> bool {
    match res {
        Ok((token, rest)) => {
            &&& token@.len() > 0
            &&& token@ + rest@ == input
            &&& accepts_exactly(f, input, token@.len() as int)
        },
        Err((kind, at)) => {
            &&& kind == LexErrorKind::ExpectedName(name)
            &&& at@ == input
            &&& accepts_exactly(f, input, 0)
        },
    }
}

/// Consumes the longest non-empty run of characters at the front of `input`
/// that `f` accepts; `name` says what was expected when there is none.
pub fn take_while<'a, F: Fn(char) -> bool>(input: &'a str, name: &'static str, f: F) -> (res:
    LexResult<'a, &'a str>)
    requires
        forall|c: char| f.requires((c,)),
    ensures
        stays_within(input@, res),
        take_while_outcome(f, input@, name, res),
{
    let mut iter = input.chars();
    let mut rest: &'a str = iter.as_str();
    let ghost mut k: int = 0;
    loop
        invariant_except_break
            iter.remaining() == rest@,
        invariant
            0 <= k <= input@.len(),
            rest@ == input@.skip(k),
            forall|i: int| 0 <= i < k ==> f.ensures((#[trigger] input@[i],), true),
            forall|c: char| f.requires((c,)),
        ensures
            k < input@.len() ==> f.ensures((input@[k],), false),
        decreases input@.len() - k,
    {
        match iter.next() {
            Some(c) => {
                if f(c) {
                    rest = iter.as_str();
                    proof {
                        assert(input@.skip(k).drop_first() =~= input@.skip(k + 1));
                        k = k + 1;
                    }
                } else {
                    break ;
                }
            },
            None => {
                break ;
            },
        }
    }
    proof {
        let front = input@.take(k);
        assert(input@ =~= front + rest@);
        lemma_encode_concat(front, rest@);
        lemma_encode_nonempty(front);
        assert(input@ =~= input@.subrange(0, input@.len() as int));
    }
    if byte_len(rest) != byte_len(input) {
        let token = span(input, rest);
        Ok((token, rest))
    } else {
        Err((LexErrorKind::ExpectedName(name), input))
    }
}

/// What `take` returns: the input cut in two after `expected` bytes, or a
/// count mismatch at the whole input when it has fewer.
pub open spec fn take_outcome(input: Seq<char>, expected: usize, res: LexResult<'_, &str>) -> bool {
    let bytes = encode_utf8(input);
    if expected <= bytes.len() {
        res matches Ok((front, rest)) && encode_utf8(front@) == bytes.subrange(0, expected as int)
            && encode_utf8(rest@) == bytes.subrange(expected as int, bytes.len() as int) && front@
            + rest@ == input
    } else {
        failure(res) == Some(
            (
                LexErrorKind::CountMismatch {
                    name: "character",
                    actual: bytes.len() as usize,
                    expected,
                },
                input,
            ),
        )
    }
}

/// Splits `input` after its first `expected` bytes. The count is in bytes:
/// where the input is long enough, a character must start at that offset.
pub fn take<'a>(input: &'a str, expected: usize) -> (res: LexResult<'a, &'a str>)
    requires
        expected <= encode_utf8(input@).len() ==> is_char_boundary(
            encode_utf8(input@),
            expected as int,
        ),
    ensures
        stays_within(input@, res),
        take_outcome(input@, expected, res),
{
    let actual = byte_len(input);
    if actual >= expected {
        let (front, rest) = input.split_at(expected);
        proof {
            lemma_split_chars(input@, front@, rest@, expected as int);
        }
        Ok((front, rest))
    } else {
        proof {
            assert(input@ =~= input@.subrange(0, input@.len() as int));
        }
        Err((LexErrorKind::CountMismatch { name: "character", actual, expected }, input))
    }
}

} // verus!
