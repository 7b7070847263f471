//! Strings and their UTF-8 encodings: equality, prefixes, decoding.

use vstd::prelude::*;
use vstd::string::StringSliceAdditionalSpecFns;
use vstd::utf8::{
    decode_utf8, decode_utf8_split, encode_utf8, encode_utf8_decode_utf8, encode_utf8_valid_utf8,
    is_char_boundary, pop_first_scalar, valid_utf8, valid_utf8_concat,
};

verus! {

/// Two strings hold the same characters exactly when their UTF-8 encodings
/// hold the same bytes.
pub proof fn lemma_same_bytes_same_text(a: Seq<char>, b: Seq<char>)
    requires
        encode_utf8(a) == encode_utf8(b),
    ensures
        a == b,
{
    encode_utf8_decode_utf8(a);
    encode_utf8_decode_utf8(b);
}

/// The encoding of a concatenation is the concatenation of the encodings.
pub proof fn lemma_encode_concat(a: Seq<char>, b: Seq<char>)
    ensures
        encode_utf8(a + b) == encode_utf8(a) + encode_utf8(b),
    decreases a.len(),
{
    if a.len() > 0 {
        lemma_encode_concat(a.drop_first(), b);
        assert((a + b).drop_first() =~= a.drop_first() + b);
    }
}

/// Where one valid encoding is followed by another, the seam between the
/// two falls on a character boundary.
pub proof fn lemma_seam_is_char_boundary(head: Seq<u8>, tail: Seq<u8>)
    requires
        valid_utf8(head),
        valid_utf8(tail),
    ensures
        valid_utf8(head + tail),
        is_char_boundary(head + tail, head.len() as int),
    decreases head.len(),
{
    valid_utf8_concat(head, tail);
    if head.len() != 0 {
        let rest = pop_first_scalar(head);
        assert(pop_first_scalar(head + tail) =~= rest + tail);
        lemma_seam_is_char_boundary(rest, tail);
    }
}

/// Compares two strings character by character.
pub fn text_eq(a: &str, b: &str) -> (same: bool)
    ensures
        same == (a@ == b@),
{
    let left = a.as_bytes();
    let right = b.as_bytes();
    if left.len() != right.len() {
        return false;
    }
    let mut i: usize = 0;
    while i < left.len()
        invariant
            i <= left.len(),
            left.len() == right.len(),
            left@ == a.spec_bytes(),
            right@ == b.spec_bytes(),
            forall|j: int| 0 <= j < i ==> left@[j] == right@[j],
        decreases left.len() - i,
    {
        if left[i] != right[i] {
            return false;
        }
        i += 1;
    }
    proof {
        assert(left@ =~= right@);
        lemma_same_bytes_same_text(a@, b@);
    }
    true
}

/// What is left of `text` once `prefix` is taken off its front, where
/// `text` starts with `prefix`.
pub open spec fn without_prefix(text: Seq<char>, prefix: Seq<char>) -> Option<Seq<char>> {
    if prefix.is_prefix_of(text) {
        Some(text.skip(prefix.len() as int))
    } else {
        None
    }
}

/// Takes `prefix` off the front of `text`: the rest where `text` starts with
/// `prefix`, nothing where it does not.
pub fn strip_prefix<'a>(text: &'a str, prefix: &str) -> (rest: Option<&'a str>)
    ensures
        match rest {
            Some(r) => without_prefix(text@, prefix@) == Some(r@),
            None => without_prefix(text@, prefix@) is None,
        },
{
    let n = prefix.as_bytes().len();
    proof {
        encode_utf8_valid_utf8(text@);
        encode_utf8_valid_utf8(prefix@);
        if prefix@.is_prefix_of(text@) {
            let tail = text@.skip(prefix@.len() as int);
            assert(text@ =~= prefix@ + tail);
            lemma_encode_concat(prefix@, tail);
            encode_utf8_valid_utf8(tail);
            lemma_seam_is_char_boundary(encode_utf8(prefix@), encode_utf8(tail));
            assert(text.spec_bytes().subrange(0, n as int) =~= prefix.spec_bytes());
        }
    }
    if n > text.as_bytes().len() || !text.is_char_boundary(n) {
        return None;
    }
    let (head, tail) = text.split_at(n);
    if !text_eq(head, prefix) {
        proof {
            if prefix@.is_prefix_of(text@) {
                lemma_same_bytes_same_text(head@, prefix@);
            }
        }
        return None;
    }
    proof {
        decode_utf8_split(text.spec_bytes(), n as int);
        encode_utf8_decode_utf8(text@);
        encode_utf8_decode_utf8(head@);
        encode_utf8_decode_utf8(tail@);
    }
    Some(tail)
}

/// Calls `String::from_utf8`. The contract claims what std documents: the
/// call succeeds exactly when the bytes are valid UTF-8, and the string then
/// holds those bytes.
#[verifier::external_body]
pub(crate) fn string_from_utf8(bytes: Vec<u8>) -> (text: Option<String>)
    ensures
        match text {
            Some(t) => valid_utf8(bytes@) && encode_utf8(t@) == bytes@,
            None => !valid_utf8(bytes@),
        },
{
    String::from_utf8(bytes).ok()
}

/// The text that `bytes` encode, where they are valid UTF-8.
pub open spec fn text_of(bytes: Seq<u8>) -> Option<Seq<char>> {
    if valid_utf8(bytes) {
        Some(decode_utf8(bytes))
    } else {
        None
    }
}

/// Decodes `bytes` as UTF-8: the text where they are valid, nothing where
/// they are not.
pub fn decode_text(bytes: Vec<u8>) -> (text: Option<String>)
    ensures
        match text {
            Some(t) => text_of(bytes@) == Some(t@),
            None => text_of(bytes@) is None,
        },
{
    let text = string_from_utf8(bytes);
    proof {
        if text is Some {
            encode_utf8_decode_utf8(text->0@);
        }
    }
    text
}

} // verus!
