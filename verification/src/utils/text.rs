//! Text as bytes: comparing strings and prefixes through their UTF-8 form.

use vstd::prelude::*;
use vstd::utf8::*;
use vstd::string::*;

verus! {

/// Encoding goes through concatenation.
pub proof fn lemma_encode_concat(head: Seq<char>, tail: Seq<char>)
    ensures
        encode_utf8(head + tail) == encode_utf8(head) + encode_utf8(tail),
    decreases head.len(),
{
    if head.len() == 0 {
        assert(head + tail =~= tail);
        assert(encode_utf8(head) + encode_utf8(tail) =~= encode_utf8(tail));
    } else {
        let whole = head + tail;
        assert(whole[0] == head[0]);
        assert(whole.drop_first() =~= head.drop_first() + tail);
        lemma_encode_concat(head.drop_first(), tail);
        assert(encode_utf8(whole) =~= encode_utf8(head) + encode_utf8(tail));
    }
}

/// Two texts with the same encoding are the same text.
pub proof fn lemma_encode_injective(a: Seq<char>, b: Seq<char>)
    requires
        encode_utf8(a) == encode_utf8(b),
    ensures
        a == b,
{
    encode_utf8_decode_utf8(a);
    encode_utf8_decode_utf8(b);
}

/// A text begins with `marker` exactly when its bytes begin with the bytes
/// of `marker`.
pub proof fn lemma_prefix_in_bytes_and_text(marker: Seq<char>, bytes: Seq<u8>)
    requires
        valid_utf8(bytes),
    ensures
        encode_utf8(marker).is_prefix_of(bytes) <==> marker.is_prefix_of(decode_utf8(bytes)),
{
    let head = encode_utf8(marker);
    let text = decode_utf8(bytes);
    encode_utf8_valid_utf8(marker);
    encode_utf8_decode_utf8(marker);
    decode_utf8_encode_utf8(bytes);
    if head.is_prefix_of(bytes) {
        let cut = head.len() as int;
        let tail = bytes.subrange(cut, bytes.len() as int);
        assert(bytes.subrange(0, cut) =~= head);
        assert(valid_utf8(tail)) by {
            if !valid_utf8(tail) {
                partial_valid_partial_invalid_utf8(bytes, cut);
            }
        }
        if cut < bytes.len() {
            assert(tail[0] == bytes[cut]);
            assert(valid_first_scalar(tail));
            assert(!is_continuation_byte(bytes[cut]));
            is_char_boundary_iff_not_is_continuation_byte(bytes, cut);
        } else {
            is_char_boundary_start_end_of_seq(bytes);
        }
        decode_utf8_split(bytes, cut);
        assert(text =~= marker + decode_utf8(tail));
        assert(marker =~= text.subrange(0, marker.len() as int));
    }
    if marker.is_prefix_of(text) {
        let rest = text.subrange(marker.len() as int, text.len() as int);
        assert(text =~= marker + rest);
        lemma_encode_concat(marker, rest);
        assert(head =~= bytes.subrange(0, head.len() as int));
    }
}

/// `String::from_utf8` of std. It gives a string exactly when the bytes are
/// well-formed UTF-8, and the string then holds the characters that the
/// bytes encode. Nothing is replaced or dropped.
#[verifier::external_body]
pub(crate) fn string_from_utf8(bytes: Vec<u8>) -> (text: Option<String>)
    ensures
        text is Some <==> valid_utf8(bytes@),
        text matches Some(s) ==> s@ == decode_utf8(bytes@),
{
    match String::from_utf8(bytes) {
        Ok(text) => Some(text),
        Err(_) => None,
    }
}

/// Whether `bytes` begins with `marker`.
pub fn starts_with(bytes: &[u8], marker: &[u8]) -> (found: bool)
    ensures
        found == marker@.is_prefix_of(bytes@),
{
    if marker.len() > bytes.len() {
        return false;
    }
    let mut i: usize = 0;
    while i < marker.len()
        invariant
            i <= marker@.len() <= bytes@.len(),
            forall|j: int| 0 <= j < i ==> marker@[j] == bytes@[j],
        decreases marker@.len() - i,
    {
        if marker[i] != bytes[i] {
            assert(marker@[i as int] != bytes@.subrange(0, marker@.len() as int)[i as int]);
            return false;
        }
        i += 1;
    }
    assert(marker@ =~= bytes@.subrange(0, marker@.len() as int));
    true
}

/// Whether `text` begins with `prefix`.
pub fn str_starts_with(text: &str, prefix: &str) -> (found: bool)
    ensures
        found == prefix@.is_prefix_of(text@),
{
    proof {
        encode_utf8_valid_utf8(text@);
        encode_utf8_decode_utf8(text@);
        lemma_prefix_in_bytes_and_text(prefix@, encode_utf8(text@));
    }
    starts_with(text.as_bytes(), prefix.as_bytes())
}

/// Whether two strings hold the same text.
pub fn str_equal(a: &str, b: &str) -> (same: bool)
    ensures
        same == (a@ == b@),
{
    let left = a.as_bytes();
    let right = b.as_bytes();
    if left.len() != right.len() {
        return false;
    }
    let found = starts_with(left, right);
    proof {
        if found {
            assert(right@ =~= left@.subrange(0, right@.len() as int));
            assert(left@.subrange(0, left@.len() as int) =~= left@);
            lemma_encode_injective(a@, b@);
        }
    }
    found
}

} // verus!
