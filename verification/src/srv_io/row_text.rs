//! The code of a failure report, read off its text.
//!
//! The classifier finds the code in the payload's bytes. Here the same code
//! is described in terms of the decoded text, and the two are proved to
//! agree: splitting at ASCII spaces means the same in bytes and in
//! characters.

use vstd::prelude::*;
use vstd::utf8::*;
use crate::srv_io::row::classify;
use crate::srv_io::row::code_end;
use crate::srv_io::row::code_start;
use crate::srv_io::row::error_code_bytes;
use crate::srv_io::row::error_marker;
use crate::srv_io::row::lemma_error_marker;
use crate::srv_io::row::lemma_skip_spaces;
use crate::srv_io::row::lemma_skip_word;
use crate::srv_io::row::RowModel;
use crate::srv_io::row::SPACE;

verus! {

/// The first index at or behind `from` that holds no space, or the length.
pub open spec fn text_skip_spaces(text: Seq<char>, from: int) -> int
    decreases text.len() - from,
{
    if 0 <= from < text.len() && text[from] == ' ' {
        text_skip_spaces(text, from + 1)
    } else {
        from
    }
}

/// The first index at or behind `from` that holds a space, or the length.
pub open spec fn text_skip_word(text: Seq<char>, from: int) -> int
    decreases text.len() - from,
{
    if 0 <= from < text.len() && text[from] != ' ' {
        text_skip_word(text, from + 1)
    } else {
        from
    }
}

/// The code of a failure report `-- <CODE> <REASON> --<detail>`: the first
/// word behind the two hyphens and the spaces that follow them.
pub open spec fn error_code_text(text: Seq<char>) -> Seq<char>
    recommends
        "--"@.is_prefix_of(text),
{
    let start = text_skip_spaces(text, 2);
    text.subrange(start, text_skip_word(text, start))
}

proof fn lemma_text_skip_spaces_to(text: Seq<char>, from: int, to: int)
    requires
        0 <= from <= to <= text.len(),
        forall|i: int| from <= i < to ==> text[i] == ' ',
        to < text.len() ==> text[to] != ' ',
    ensures
        text_skip_spaces(text, from) == to,
    decreases to - from,
{
    if from < to {
        lemma_text_skip_spaces_to(text, from + 1, to);
    }
}

proof fn lemma_text_skip_word_to(text: Seq<char>, from: int, to: int)
    requires
        0 <= from <= to <= text.len(),
        forall|i: int| from <= i < to ==> text[i] != ' ',
        to < text.len() ==> text[to] == ' ',
    ensures
        text_skip_word(text, from) == to,
    decreases to - from,
{
    if from < to {
        lemma_text_skip_word_to(text, from + 1, to);
    }
}

/// Bytes below 0x80 are UTF-8 and decode one by one.
proof fn lemma_ascii_decodes_bytewise(bytes: Seq<u8>)
    requires
        forall|i: int| 0 <= i < bytes.len() ==> bytes[i] < 0x80,
    ensures
        valid_utf8(bytes),
        decode_utf8(bytes) =~= Seq::new(bytes.len(), |i: int| bytes[i] as char),
{
    let chars = Seq::new(bytes.len(), |i: int| bytes[i] as char);
    assert(is_ascii_chars(chars));
    is_ascii_chars_encode_utf8(chars);
    assert(encode_utf8(chars) =~= bytes) by {
        assert forall|i: int| 0 <= i < bytes.len() implies encode_utf8(chars)[i] == bytes[i] by {
            assert(chars[i] as u8 == bytes[i]);
        }
    }
    encode_utf8_valid_utf8(chars);
    encode_utf8_decode_utf8(chars);
}

/// A space in a text shows as the byte 0x20 in its encoding.
proof fn lemma_space_shows_in_bytes(chars: Seq<char>)
    requires
        forall|j: int| 0 <= j < encode_utf8(chars).len() ==> encode_utf8(chars)[j] != SPACE,
    ensures
        forall|i: int| 0 <= i < chars.len() ==> chars[i] != ' ',
    decreases chars.len(),
{
    if chars.len() > 0 {
        let head = encode_scalar(chars[0] as u32);
        let rest = chars.drop_first();
        assert(encode_utf8(chars) == head + encode_utf8(rest));
        assert(head.len() >= 1);
        if chars[0] == ' ' {
            assert(0x20u32 & 0x7F == 0x20u32) by (bit_vector);
            assert(head[0] == SPACE);
            assert(encode_utf8(chars)[0] == SPACE);
        }
        assert forall|j: int| 0 <= j < encode_utf8(rest).len() implies encode_utf8(rest)[j]
            != SPACE by {
            assert(encode_utf8(chars)[head.len() + j] == encode_utf8(rest)[j]);
        }
        lemma_space_shows_in_bytes(rest);
        assert forall|i: int| 0 <= i < chars.len() implies chars[i] != ' ' by {
            if i > 0 {
                assert(chars[i] == rest[i - 1]);
            }
        }
    }
}

/// The text of valid UTF-8 that begins with a space begins with a space.
proof fn lemma_leading_space_decodes(bytes: Seq<u8>)
    requires
        valid_utf8(bytes),
        bytes.len() > 0,
        bytes[0] == SPACE,
    ensures
        decode_utf8(bytes).len() > 0,
        decode_utf8(bytes)[0] == ' ',
{
    assert(0x20u8 & 0x7F == 0x20u8) by (bit_vector);
    assert(decode_first_scalar(bytes) == 0x20u32);
}

/// The code that the classifier cuts out of the bytes is the code that is
/// read off the text: for a failure report in UTF-8, the first word behind
/// `--` and the spaces that follow.
pub proof fn law_code_read_off_the_text(payload: Seq<u8>)
    requires
        valid_utf8(payload),
        error_marker().is_prefix_of(payload),
    ensures
        decode_utf8(error_code_bytes(payload)) == error_code_text(decode_utf8(payload)),
        classify(payload) matches RowModel::AppError { code, message } && code == error_code_text(
            message,
        ),
{
    lemma_error_marker();
    let len = payload.len() as int;
    let start = code_start(payload);
    let end = code_end(payload);
    lemma_skip_spaces(payload, 2);
    lemma_skip_word(payload, start);
    assert(payload[0] == 0x2du8 && payload[1] == 0x2du8) by {
        let head = payload.subrange(0, 2);
        assert(head[0] == payload[0] && head[1] == payload[1]);
    }
    let lead = payload.subrange(0, start);
    let tail = payload.subrange(start, len);
    assert forall|i: int| 0 <= i < lead.len() implies lead[i] < 0x80 by {
        if i >= 2 {
            assert(payload[i] == SPACE);
        }
    }
    lemma_ascii_decodes_bytewise(lead);
    assert(valid_utf8(tail)) by {
        if !valid_utf8(tail) {
            partial_valid_partial_invalid_utf8(payload, start);
        }
    }
    // The code starts on a character boundary of the payload.
    if start < len {
        assert(tail[0] == payload[start]);
        assert(valid_first_scalar(tail));
        assert(!is_continuation_byte(payload[start]));
        is_char_boundary_iff_not_is_continuation_byte(payload, start);
    } else {
        is_char_boundary_start_end_of_seq(payload);
    }
    decode_utf8_split(payload, start);
    // The code ends on a character boundary of what follows the spaces.
    let cut = end - start;
    if cut < tail.len() {
        assert(tail[cut] == payload[end]);
        assert(!is_continuation_byte(tail[cut]));
        is_char_boundary_iff_not_is_continuation_byte(tail, cut);
    } else {
        is_char_boundary_start_end_of_seq(tail);
    }
    valid_utf8_split(tail, cut);
    decode_utf8_split(tail, cut);
    let code_bytes = tail.subrange(0, cut);
    let rest_bytes = tail.subrange(cut, tail.len() as int);
    assert(code_bytes =~= error_code_bytes(payload));
    let text = decode_utf8(payload);
    let spaces = decode_utf8(lead);
    let code = decode_utf8(code_bytes);
    let rest = decode_utf8(rest_bytes);
    assert(text =~= spaces + (code + rest));
    // No space in the code.
    decode_utf8_encode_utf8(code_bytes);
    assert forall|j: int| 0 <= j < encode_utf8(code).len() implies encode_utf8(code)[j]
        != SPACE by {
        assert(code_bytes[j] == payload[start + j]);
    }
    lemma_space_shows_in_bytes(code);
    // A space behind the code, if anything is behind it.
    if rest_bytes.len() > 0 {
        assert(rest_bytes[0] == payload[end]);
        lemma_leading_space_decodes(rest_bytes);
    } else {
        assert(rest =~= Seq::<char>::empty());
    }
    if cut == 0 && rest_bytes.len() > 0 {
        assert(payload[start] == SPACE);
    }
    let text_start = spaces.len() as int;
    let text_end = text_start + code.len();
    assert(text_start == start);
    assert forall|i: int| 2 <= i < text_start implies text[i] == ' ' by {
        assert(text[i] == spaces[i]);
        assert(lead[i] == payload[i]);
        assert(payload[i] == SPACE);
    }
    assert(text_start < text.len() ==> text[text_start] != ' ') by {
        if text_start < text.len() {
            if code.len() > 0 {
                assert(text[text_start] == code[0]);
            } else {
                assert(text[text_start] == rest[0]);
            }
        }
    }
    lemma_text_skip_spaces_to(text, 2, text_start);
    assert forall|i: int| text_start <= i < text_end implies text[i] != ' ' by {
        assert(text[i] == code[i - text_start]);
    }
    assert(text_end < text.len() ==> text[text_end] == ' ') by {
        if text_end < text.len() {
            assert(text[text_end] == rest[0]);
        }
    }
    lemma_text_skip_word_to(text, text_start, text_end);
    assert(text.subrange(text_start, text_end) =~= code);
}

} // verus!
