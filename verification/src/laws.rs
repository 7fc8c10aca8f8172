//! What holds of the recognisers taken together.

use crate::alternatives::{alternatives_outcome, first_match};
use crate::combinators::{
    accepts_exactly, expect_outcome, stays_within, take_outcome, take_while_outcome,
};
use crate::error::{failure, LexError, LexResult};
use crate::number::fixed_byte_outcome;
use crate::text::{byte_prefix, consumed, lemma_encode_injective};
use vstd::prelude::*;

verus! {

/// Whatever a successful lexer left over, the text it consumed followed by
/// that remainder is the input again.
pub proof fn lemma_span_restores_input<T>(input: Seq<char>, res: LexResult<'_, T>)
    requires
        stays_within(input, res),
        res is Ok,
    ensures
        consumed(input, res->Ok_0.1@) + res->Ok_0.1@ == input,
{
    let rest = res->Ok_0.1@;
    assert(consumed(input, rest) + rest =~= input);
}

/// What was consumed is the token itself: cutting the remainder off a token
/// followed by that remainder leaves the token.
pub proof fn lemma_consumed_is_token(token: Seq<char>, rest: Seq<char>)
    ensures
        rest.is_suffix_of(token + rest),
        consumed(token + rest, rest) == token,
{
    assert(consumed(token + rest, rest) =~= token);
    assert(rest =~= (token + rest).subrange(token.len() as int, (token + rest).len() as int));
}

/// Matching a literal twice on one input fails in the same way, or succeeds
/// with the same remainder.
pub proof fn lemma_expect_repeats(
    input: Seq<char>,
    s: &'static str,
    first: Result<&str, LexError<'_>>,
    second: Result<&str, LexError<'_>>,
)
    requires
        expect_outcome(input, s, first),
        expect_outcome(input, s, second),
    ensures
        failure(first) == failure(second),
        first is Ok ==> second is Ok && first->Ok_0@ == second->Ok_0@,
{
}

/// Taking a fixed number of bytes twice from one input fails in the same way,
/// or succeeds with the same two pieces.
pub proof fn lemma_take_repeats(
    input: Seq<char>,
    expected: usize,
    first: LexResult<'_, &str>,
    second: LexResult<'_, &str>,
)
    requires
        take_outcome(input, expected, first),
        take_outcome(input, expected, second),
    ensures
        failure(first) == failure(second),
        first is Ok ==> second is Ok && first->Ok_0.0@ == second->Ok_0.0@ && first->Ok_0.1@
            == second->Ok_0.1@,
{
    if first is Ok {
        lemma_encode_injective(first->Ok_0.0@, second->Ok_0.0@);
        lemma_encode_injective(first->Ok_0.1@, second->Ok_0.1@);
    }
}

/// With a predicate that gives one answer for each character, scanning one
/// input twice fails in the same way, or succeeds with the same token and
/// remainder.
pub proof fn lemma_take_while_repeats<F: Fn(char) -> bool>(
    f: F,
    input: Seq<char>,
    name: &'static str,
    first: LexResult<'_, &str>,
    second: LexResult<'_, &str>,
)
    requires
        forall|c: char| !(f.ensures((c,), true) && f.ensures((c,), false)),
        take_while_outcome(f, input, name, first),
        take_while_outcome(f, input, name, second),
    ensures
        failure(first) == failure(second),
        first is Ok ==> second is Ok && first->Ok_0.0@ == second->Ok_0.0@ && first->Ok_0.1@
            == second->Ok_0.1@,
{
    let k1 = accepted_len(first);
    let k2 = accepted_len(second);
    assert(accepts_exactly(f, input, k1));
    assert(accepts_exactly(f, input, k2));
    if k1 < k2 {
        assert(f.ensures((input[k1],), true));
    }
    if k2 < k1 {
        assert(f.ensures((input[k2],), true));
    }
    if first is Ok {
        let t1 = first->Ok_0.0@;
        let t2 = second->Ok_0.0@;
        let r1 = first->Ok_0.1@;
        let r2 = second->Ok_0.1@;
        assert(t1 =~= (t1 + r1).take(k1));
        assert(t2 =~= (t2 + r2).take(k2));
        assert(r1 =~= (t1 + r1).skip(k1));
        assert(r2 =~= (t2 + r2).skip(k2));
    }
}

/// The number of characters that a scan accepted: none where it failed.
pub open spec fn accepted_len(res: LexResult<'_, &str>) -> int {
    match res {
        Ok((token, _)) => token@.len() as int,
        Err(_) => 0,
    }
}

/// Lexing a fixed-width byte twice from one input fails in the same way, or
/// succeeds with the same byte and remainder.
pub proof fn lemma_fixed_byte_repeats(
    input: Seq<char>,
    width: usize,
    radix: u32,
    first: LexResult<'_, u8>,
    second: LexResult<'_, u8>,
)
    requires
        fixed_byte_outcome(input, width, radix, first),
        fixed_byte_outcome(input, width, radix, second),
    ensures
        failure(first) == failure(second),
        first is Ok ==> second is Ok && first->Ok_0.0 == second->Ok_0.0 && first->Ok_0.1@
            == second->Ok_0.1@,
{
    if first is Ok {
        let digits = byte_prefix(input, width as int);
        let a = first->Ok_0.1@;
        let b = second->Ok_0.1@;
        assert(a =~= (digits + a).skip(digits.len() as int));
        assert(b =~= (digits + b).skip(digits.len() as int));
    }
}

/// Lexing an enumeration twice on one input fails in the same way, or
/// succeeds with the same tag and remainder: the declaration order decides
/// alone.
pub proof fn lemma_alternatives_repeat<T>(
    name: &'static str,
    entries: Seq<(&'static str, T)>,
    input: Seq<char>,
    first: LexResult<'_, T>,
    second: LexResult<'_, T>,
)
    requires
        alternatives_outcome(name, entries, input, first),
        alternatives_outcome(name, entries, input, second),
    ensures
        failure(first) == failure(second),
        first is Ok ==> second is Ok && first->Ok_0.0 == second->Ok_0.0 && first->Ok_0.1@
            == second->Ok_0.1@,
{
    if first is Ok {
        let i = choose|i: int|
            first_match(entries, input, i) && first->Ok_0.0 == (#[trigger] entries[i]).1
                && first->Ok_0.1@ == input.skip(entries[i].0@.len() as int);
        assert(entries[i].0@.is_prefix_of(input));
        if second is Ok {
            let j = choose|j: int|
                first_match(entries, input, j) && second->Ok_0.0 == (#[trigger] entries[j]).1
                    && second->Ok_0.1@ == input.skip(entries[j].0@.len() as int);
            assert(entries[j].0@.is_prefix_of(input));
            assert(i == j);
        }
    } else if second is Ok {
        let j = choose|j: int|
            first_match(entries, input, j) && second->Ok_0.0 == (#[trigger] entries[j]).1
                && second->Ok_0.1@ == input.skip(entries[j].0@.len() as int);
        assert(entries[j].0@.is_prefix_of(input));
    }
}

} // verus!
