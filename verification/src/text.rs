//! Facts about text, its characters and its UTF-8 bytes.

use vstd::prelude::*;
use vstd::utf8::*;

verus! {

/// `span` is a contiguous piece of `input`.
pub open spec fn is_subslice(span: Seq<char>, input: Seq<char>) -> bool {
    exists|i: int, j: int| 0 <= i <= j <= input.len() && span == #[trigger] input.subrange(i, j)
}

/// The prefix of `input` that was consumed when `rest` is what remains.
pub open spec fn consumed(input: Seq<char>, rest: Seq<char>) -> Seq<char> {
    input.subrange(0, input.len() - rest.len())
}

/// The characters that the first `n` bytes of `input` spell.
pub open spec fn byte_prefix(input: Seq<char>, n: int) -> Seq<char> {
    decode_utf8(encode_utf8(input).subrange(0, n))
}

/// Encoding distributes over concatenation.
pub proof fn lemma_encode_concat(a: Seq<char>, b: Seq<char>)
    ensures
        encode_utf8(a + b) == encode_utf8(a) + encode_utf8(b),
    decreases a.len(),
{
    if a.len() == 0 {
        assert(a + b =~= b);
        assert(encode_utf8(a) + encode_utf8(b) =~= encode_utf8(b));
    } else {
        lemma_encode_concat(a.drop_first(), b);
        assert((a + b).drop_first() =~= a.drop_first() + b);
        assert(encode_utf8(a + b) =~= encode_utf8(a) + encode_utf8(b));
    }
}

/// A non-empty text has at least one byte.
pub proof fn lemma_encode_nonempty(a: Seq<char>)
    ensures
        a.len() > 0 <==> encode_utf8(a).len() > 0,
{
    if a.len() > 0 {
        assert(encode_scalar(a[0] as u32).len() > 0);
    }
}

/// The end of an encoded prefix is a character boundary of the whole.
pub proof fn lemma_boundary_after_prefix(a: Seq<char>, b: Seq<char>)
    ensures
        is_char_boundary(encode_utf8(a + b), encode_utf8(a).len() as int),
    decreases a.len(),
{
    broadcast use encode_utf8_valid_utf8;

    if a.len() > 0 {
        let bytes = encode_utf8(a + b);
        encode_utf8_first_scalar(a + b);
        lemma_boundary_after_prefix(a.drop_first(), b);
        assert((a + b).drop_first() =~= a.drop_first() + b);
        assert(pop_first_scalar(bytes) =~= encode_utf8((a + b).drop_first()));
        assert(encode_scalar(a[0] as u32).len() > 0);
    }
}

/// Two texts with the same bytes have the same characters.
pub proof fn lemma_encode_injective(a: Seq<char>, b: Seq<char>)
    requires
        encode_utf8(a) == encode_utf8(b),
    ensures
        a == b,
{
    encode_utf8_decode_utf8(a);
    encode_utf8_decode_utf8(b);
}

/// Cutting the bytes of a text at a character boundary cuts its characters in two.
pub proof fn lemma_split_chars(whole: Seq<char>, front: Seq<char>, back: Seq<char>, mid: int)
    requires
        is_char_boundary(encode_utf8(whole), mid),
        0 <= mid <= encode_utf8(whole).len(),
        encode_utf8(front) == encode_utf8(whole).subrange(0, mid),
        encode_utf8(back) == encode_utf8(whole).subrange(mid, encode_utf8(whole).len() as int),
    ensures
        whole == front + back,
{
    let bytes = encode_utf8(whole);
    encode_utf8_valid_utf8(whole);
    decode_utf8_split(bytes, mid);
    encode_utf8_decode_utf8(whole);
    encode_utf8_decode_utf8(front);
    encode_utf8_decode_utf8(back);
    assert(whole =~= front + back);
}

/// Where the first `n` characters of `input` are ASCII, they are its first
/// `n` bytes, one byte each, and a character starts behind them.
pub proof fn lemma_ascii_prefix(input: Seq<char>, n: int)
    requires
        0 <= n <= input.len(),
        is_ascii_chars(input.take(n)),
    ensures
        n <= encode_utf8(input).len(),
        is_char_boundary(encode_utf8(input), n),
        byte_prefix(input, n) == input.take(n),
{
    let front = input.take(n);
    let back = input.skip(n);
    assert(input =~= front + back);
    is_ascii_chars_encode_utf8(front);
    lemma_encode_concat(front, back);
    lemma_boundary_after_prefix(front, back);
    assert(encode_utf8(input).subrange(0, n) =~= encode_utf8(front));
    encode_utf8_decode_utf8(front);
}

} // verus!
