//! Tokens that are one of an ordered list of alternatives.
//!
//! Alternatives are tried in the order in which they were declared and the
//! first that matches wins: a literal that is a prefix of a later one hides it.

use crate::combinators::{expect, stays_within, Lex};
use crate::error::{LexError, LexErrorKind, LexResult};
use crate::text::is_subslice;
use vstd::prelude::*;

verus! {

/// An ordered list of literals, each with the tag that it stands for, under
/// the name by which a failure reports the whole enumeration.
pub struct Alternatives<T> {
    pub name: &'static str,
    pub entries: Vec<(&'static str, T)>,
}

/// Entry `i` matches `input` and no entry before it does.
pub open spec fn first_match<T>(entries: Seq<(&'static str, T)>, input: Seq<char>, i: int) -> bool {
    &&& 0 <= i < entries.len()
    &&& entries[i].0@.is_prefix_of(input)
    &&& forall|j: int| 0 <= j < i ==> !(#[trigger] entries[j]).0@.is_prefix_of(input)
}

/// No entry matches `input`.
pub open spec fn no_match<T>(entries: Seq<(&'static str, T)>, input: Seq<char>) -> bool {
    forall|j: int| 0 <= j < entries.len() ==> !(#[trigger] entries[j]).0@.is_prefix_of(input)
}

/// What lexing an enumeration returns: the tag of the first entry whose
/// literal stands at the front of the input, with the text behind that
/// literal; or, where no entry matches, the enumeration's name as what was
/// expected, at the whole input.
pub open spec fn alternatives_outcome<T>(
    name: &'static str,
    entries: Seq<(&'static str, T)>,
    input: Seq<char>,
    res: LexResult<'_, T>,
) -> bool {
    match res {
        Ok((tag, rest)) => exists|i: int|
            first_match(entries, input, i) && tag == (#[trigger] entries[i]).1 && rest@
                == input.skip(entries[i].0@.len() as int),
        Err((kind, at)) => {
            &&& no_match(entries, input)
            &&& kind == LexErrorKind::ExpectedName(name)
            &&& at@ == input
        },
    }
}

impl<T: Copy> Alternatives<T> {
    /// An enumeration without entries, which matches nothing.
    pub fn new(name: &'static str) -> (made: Self)
        ensures
            made.name == name,
            made.entries@.len() == 0,
    {
        Alternatives { name, entries: Vec::new() }
    }

    /// Declares `literal` as the next alternative, standing for `tag`.
    pub fn literal(self, literal: &'static str, tag: T) -> (made: Self)
        ensures
            made.name == self.name,
            made.entries@ == self.entries@.push((literal, tag)),
    {
        let mut entries = self.entries;
        entries.push((literal, tag));
        Alternatives { name: self.name, entries }
    }

    /// Lexes the first declared alternative that stands at the front of `input`.
    pub fn lex<'a>(&self, input: &'a str) -> (res: LexResult<'a, T>)
        ensures
            stays_within(input@, res),
            alternatives_outcome(self.name, self.entries@, input@, res),
    {
        let mut i: usize = 0;
        while i < self.entries.len()
            invariant
                0 <= i <= self.entries@.len(),
                forall|j: int| 0 <= j < i ==> !(#[trigger] self.entries@[j]).0@.is_prefix_of(input@),
            decreases self.entries@.len() - i,
        {
            let entry = &self.entries[i];
            match expect(input, entry.0) {
                Ok(rest) => {
                    assert(first_match(self.entries@, input@, i as int));
                    return Ok((entry.1, rest));
                },
                Err(_) => {},
            }
            i += 1;
        }
        proof {
            assert(input@ =~= input@.subrange(0, input@.len() as int));
        }
        Err(no_alternative(self.name, input))
    }
}

/// What an alternative contributes: the value and remainder of a success,
/// and nothing of a failure, whose detail is dropped.
pub open spec fn success<S>(outcome: LexResult<'_, S>) -> Option<(S, &str)> {
    match outcome {
        Ok(found) => Some(found),
        Err(_) => None,
    }
}

/// Keeps the value and remainder of a success and drops a failure.
pub fn success_of<'a, S>(outcome: LexResult<'a, S>) -> (res: Option<(S, &'a str)>)
    ensures
        res == success(outcome),
{
    match outcome {
        Ok(found) => Some(found),
        Err(_) => None,
    }
}

/// `res` is what is kept of an outcome that the lexer of `S` can give on
/// `input`: its value and remainder where it succeeds there, nothing where it
/// fails there.
pub open spec fn nested_outcome<'a, S: Lex<'a>>(input: &'a str, res: Option<(S, &'a str)>) -> bool {
    exists|outcome: LexResult<'a, S>| #[trigger]
        call_ensures(S::lex, (input,), outcome) && res == success(outcome)
}

/// Tries a nested lexable type as one alternative. Its failure is dropped, so
/// that the next alternative can be tried on the same input.
pub fn nested<'a, S: Lex<'a>>(input: &'a str) -> (res: Option<(S, &'a str)>)
    ensures
        nested_outcome::<S>(input, res),
        res matches Some((_, rest)) ==> rest@.is_suffix_of(input@),
{
    let outcome = S::lex(input);
    success_of(outcome)
}

/// The failure of an enumeration of which no alternative matched: its own
/// name as what was expected, at the whole input.
pub fn no_alternative<'a>(name: &'static str, input: &'a str) -> (err: LexError<'a>)
    ensures
        err.0 == LexErrorKind::ExpectedName(name),
        err.1@ == input@,
        is_subslice(err.1@, input@),
{
    proof {
        assert(input@ =~= input@.subrange(0, input@.len() as int));
    }
    (LexErrorKind::ExpectedName(name), input)
}

} // verus!
