//! The dotted path of the scopes of a session.
//!
//! A scope remembers how long the path was, in bytes of its UTF-8 encoding,
//! when it was entered, and the path is cut back to that length when the
//! scope is left. The functions here relate a path to its encoding and say
//! what such a cut leaves.

use vstd::prelude::*;
use vstd::string::*;
use vstd::utf8::*;

verus! {

/// Number of bytes that a text takes in UTF-8.
pub open spec fn byte_len(text: Seq<char>) -> nat {
    encode_utf8(text).len()
}

/// Whether a text can be cut at `mark` bytes: the position lies beyond its
/// end, where a cut changes nothing, or between two of its characters.
pub open spec fn mark_fits(text: Seq<char>, mark: nat) -> bool {
    mark > byte_len(text) || is_char_boundary(encode_utf8(text), mark as int)
}

/// The text shortened to its first `mark` bytes; the text itself where it
/// is not longer than that.
pub open spec fn cut(text: Seq<char>, mark: nat) -> Seq<char> {
    if mark <= byte_len(text) {
        decode_utf8(encode_utf8(text).subrange(0, mark as int))
    } else {
        text
    }
}

/// The path that results from entering the scope `name` below `path`.
pub open spec fn pushed(path: Seq<char>, name: Seq<char>) -> Seq<char> {
    if path.len() == 0 {
        name
    } else {
        path + seq!['.'] + name
    }
}

/// The encoding of a concatenation is the concatenation of the encodings.
pub proof fn lemma_encode_concat(a: Seq<char>, b: Seq<char>)
    ensures
        encode_utf8(a + b) == encode_utf8(a) + encode_utf8(b),
    decreases a.len(),
{
    if a.len() != 0 {
        lemma_encode_concat(a.drop_first(), b);
        assert((a + b).drop_first() == a.drop_first() + b);
        assert(encode_utf8(a + b) == encode_scalar(a[0] as u32) + (encode_utf8(a.drop_first())
            + encode_utf8(b)));
    }
}

/// Only the empty text takes no bytes.
pub proof fn lemma_byte_len_zero(text: Seq<char>)
    ensures
        byte_len(text) == 0 <==> text.len() == 0,
{
}

/// The end of a prefix is a place where the whole text can be cut.
pub proof fn lemma_prefix_is_boundary(a: Seq<char>, b: Seq<char>)
    ensures
        is_char_boundary(encode_utf8(a + b), byte_len(a) as int),
    decreases a.len(),
{
    let whole = encode_utf8(a + b);
    encode_utf8_valid_utf8(a + b);
    if a.len() != 0 {
        lemma_byte_len_zero(a);
        lemma_encode_concat(a, b);
        encode_utf8_first_scalar(a + b);
        assert((a + b).drop_first() == a.drop_first() + b);
        assert(pop_first_scalar(whole) == encode_utf8(a.drop_first() + b));
        lemma_prefix_is_boundary(a.drop_first(), b);
    }
}

/// Cutting a text at the end of a prefix is possible and leaves that
/// prefix.
pub proof fn lemma_cut_at_prefix(a: Seq<char>, b: Seq<char>)
    ensures
        mark_fits(a + b, byte_len(a)),
        cut(a + b, byte_len(a)) == a,
{
    lemma_prefix_is_boundary(a, b);
    lemma_encode_concat(a, b);
    assert((encode_utf8(a) + encode_utf8(b)).subrange(0, byte_len(a) as int) == encode_utf8(a));
    encode_utf8_decode_utf8(a);
}

/// The path of a scope ends with the name of the scope, and begins with
/// the path of the scope around it.
pub proof fn lemma_pushed_shape(path: Seq<char>, name: Seq<char>)
    ensures
        name.is_suffix_of(pushed(path, name)),
        path.is_prefix_of(pushed(path, name)),
{
}

/// Leaving a scope right after entering it is always possible and gives
/// back the path as it was.
pub proof fn lemma_pop_undoes_push(path: Seq<char>, name: Seq<char>)
    ensures
        mark_fits(pushed(path, name), byte_len(path)),
        cut(pushed(path, name), byte_len(path)) == path,
{
    let whole = pushed(path, name);
    lemma_pushed_shape(path, name);
    assert(whole == path + whole.skip(path.len() as int));
    lemma_cut_at_prefix(path, whole.skip(path.len() as int));
}

/// Trusted: `String::truncate`, which keeps the first `mark` bytes of the
/// string, leaves a string that is not longer than that as it is, and
/// panics where `mark` falls inside a character. The contract restates
/// this over the characters of the string.
#[verifier::external_body]
pub(crate) fn truncate(text: &mut String, mark: usize)
    requires
        mark_fits(old(text)@, mark as nat),
    ensures
        final(text)@ == cut(old(text)@, mark as nat),
{
    text.truncate(mark)
}

/// Length of a text in bytes.
pub(crate) fn byte_length(text: &str) -> (n: usize)
    ensures
        n == byte_len(text@),
{
    text.as_bytes().len()
}

/// Tells whether a text can be cut at `mark` bytes.
pub(crate) fn can_cut(text: &str, mark: usize) -> (b: bool)
    ensures
        b == mark_fits(text@, mark as nat),
{
    mark > byte_length(text) || text.is_char_boundary(mark)
}

} // verus!
