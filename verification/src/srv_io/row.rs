//! Row classifier: what a frame's payload means.
//!
//! A payload is text in UTF-8. Two literal prefixes carry control meaning:
//! `--` opens a failure report of the worker, `done!` says that the worker
//! has finished. Everything else is a content row. Both prefixes are ASCII,
//! so they are looked for in the payload's bytes.

use vstd::prelude::*;
use vstd::utf8::*;
use vstd::string::*;
use vstd::pervasive::unreached;
use crate::utils::text::lemma_prefix_in_bytes_and_text;
use crate::utils::text::starts_with;
use crate::utils::text::string_from_utf8;

verus! {

/// The byte of an ASCII space, which ends the code of a failure report.
pub const SPACE: u8 = 0x20;

/// A frame's payload, classified.
#[derive(Debug, Clone, PartialEq, Eq)]
pub enum ClassifiedRow {
    /// An ordinary content line.
    Data { row_text: String },
    /// The worker has finished.
    Completion,
    /// The worker reports a failure. `message` is the report as it was
    /// sent, `code` the status-like word that it opens with.
    AppError { code: String, message: String },
    /// The payload could not be read or is not UTF-8.
    TransportError,
}

/// A classified row with its texts as character sequences.
pub enum RowModel {
    Data { row_text: Seq<char> },
    Completion,
    AppError { code: Seq<char>, message: Seq<char> },
    TransportError,
}

impl View for ClassifiedRow {
    type V = RowModel;

    open spec fn view(&self) -> RowModel {
        match self {
            ClassifiedRow::Data { row_text } => RowModel::Data { row_text: row_text@ },
            ClassifiedRow::Completion => RowModel::Completion,
            ClassifiedRow::AppError { code, message } => RowModel::AppError {
                code: code@,
                message: message@,
            },
            ClassifiedRow::TransportError => RowModel::TransportError,
        }
    }
}

/// The bytes of the prefix that marks a failure report: `--`.
pub open spec fn error_marker() -> Seq<u8> {
    encode_utf8("--"@)
}

/// The bytes of the prefix that marks completion: `done!`.
pub open spec fn done_marker() -> Seq<u8> {
    encode_utf8("done!"@)
}

/// The first index at or behind `from` that holds no space, or the length.
pub open spec fn skip_spaces(bytes: Seq<u8>, from: int) -> int
    decreases bytes.len() - from,
{
    if 0 <= from < bytes.len() && bytes[from] == SPACE {
        skip_spaces(bytes, from + 1)
    } else {
        from
    }
}

/// The first index at or behind `from` that holds a space, or the length.
pub open spec fn skip_word(bytes: Seq<u8>, from: int) -> int
    decreases bytes.len() - from,
{
    if 0 <= from < bytes.len() && bytes[from] != SPACE {
        skip_word(bytes, from + 1)
    } else {
        from
    }
}

/// Where the code of a failure report starts: behind the marker and the
/// spaces that follow it.
pub open spec fn code_start(payload: Seq<u8>) -> int {
    skip_spaces(payload, error_marker().len() as int)
}

/// Where the code of a failure report ends: at the next space, or at the
/// end of the payload.
pub open spec fn code_end(payload: Seq<u8>) -> int {
    skip_word(payload, code_start(payload))
}

/// The code of a failure report `-- <CODE> <REASON> --<detail>`: the first
/// word behind the marker. No list of known codes is consulted.
pub open spec fn error_code_bytes(payload: Seq<u8>) -> Seq<u8>
    recommends
        error_marker().is_prefix_of(payload),
{
    payload.subrange(code_start(payload), code_end(payload))
}

/// The classification of a payload.
pub open spec fn classify(payload: Seq<u8>) -> RowModel {
    if !valid_utf8(payload) {
        RowModel::TransportError
    } else if error_marker().is_prefix_of(payload) {
        RowModel::AppError {
            code: decode_utf8(error_code_bytes(payload)),
            message: decode_utf8(payload),
        }
    } else if done_marker().is_prefix_of(payload) {
        RowModel::Completion
    } else {
        RowModel::Data { row_text: decode_utf8(payload) }
    }
}

/// The failure marker is two hyphens.
pub proof fn lemma_error_marker()
    ensures
        error_marker() =~= seq![0x2du8, 0x2du8],
{
    reveal_strlit("--");
    let chars = "--"@;
    assert(chars.len() == 2);
    assert(chars[0] == '-' && chars[1] == '-');
    assert(is_ascii_chars(chars));
    is_ascii_chars_encode_utf8(chars);
    assert(chars[0] as u8 == 0x2du8);
    assert(chars[1] as u8 == 0x2du8);
}

/// The completion marker is the five letters of `done!`.
pub proof fn lemma_done_marker()
    ensures
        done_marker() =~= seq![0x64u8, 0x6fu8, 0x6eu8, 0x65u8, 0x21u8],
{
    reveal_strlit("done!");
    let chars = "done!"@;
    assert(chars.len() == 5);
    assert(chars[0] == 'd' && chars[1] == 'o' && chars[2] == 'n' && chars[3] == 'e' && chars[4]
        == '!');
    assert(is_ascii_chars(chars));
    is_ascii_chars_encode_utf8(chars);
    assert(chars[0] as u8 == 0x64u8);
    assert(chars[1] as u8 == 0x6fu8);
    assert(chars[2] as u8 == 0x6eu8);
    assert(chars[3] as u8 == 0x65u8);
    assert(chars[4] as u8 == 0x21u8);
}

/// `skip_spaces` stops inside the sequence, behind spaces only, and not on a space.
pub proof fn lemma_skip_spaces(bytes: Seq<u8>, from: int)
    requires
        0 <= from <= bytes.len(),
    ensures
        from <= skip_spaces(bytes, from) <= bytes.len(),
        forall|i: int| from <= i < skip_spaces(bytes, from) ==> bytes[i] == SPACE,
        skip_spaces(bytes, from) < bytes.len() ==> bytes[skip_spaces(bytes, from)] != SPACE,
    decreases bytes.len() - from,
{
    if from < bytes.len() && bytes[from] == SPACE {
        lemma_skip_spaces(bytes, from + 1);
    }
}

/// `skip_word` stops inside the sequence, behind no space, and on a space or at the end.
pub proof fn lemma_skip_word(bytes: Seq<u8>, from: int)
    requires
        0 <= from <= bytes.len(),
    ensures
        from <= skip_word(bytes, from) <= bytes.len(),
        forall|i: int| from <= i < skip_word(bytes, from) ==> bytes[i] != SPACE,
        skip_word(bytes, from) < bytes.len() ==> bytes[skip_word(bytes, from)] == SPACE,
    decreases bytes.len() - from,
{
    if from < bytes.len() && bytes[from] != SPACE {
        lemma_skip_word(bytes, from + 1);
    }
}

/// The code of a failure report in valid UTF-8 is valid UTF-8 itself: it is
/// cut out at a space or at the payload's end, behind ASCII bytes only.
pub proof fn lemma_code_is_text(payload: Seq<u8>)
    requires
        valid_utf8(payload),
        error_marker().is_prefix_of(payload),
    ensures
        0 <= code_start(payload) <= code_end(payload) <= payload.len(),
        valid_utf8(error_code_bytes(payload)),
{
    lemma_error_marker();
    let start = code_start(payload);
    let end = code_end(payload);
    lemma_skip_spaces(payload, 2);
    lemma_skip_word(payload, start);
    assert(payload[0] == 0x2du8 && payload[1] == 0x2du8) by {
        let head = payload.subrange(0, 2);
        assert(head[0] == payload[0] && head[1] == payload[1]);
    }
    assert(partial_valid_utf8(payload, 0)) by {
        assert(payload.subrange(0, 0) =~= Seq::<u8>::empty());
    }
    assert forall|i: int| 0 <= 0 <= i < start <= payload.len() implies #[trigger]
        is_leading_byte_width_1(payload[i]) by {
        if i >= 2 {
            assert(payload[i] == SPACE);
        }
    }
    partial_valid_utf8_extend_ascii_block(payload, 0, start);
    let tail = payload.subrange(start, payload.len() as int);
    assert(valid_utf8(tail)) by {
        if !valid_utf8(tail) {
            partial_valid_partial_invalid_utf8(payload, start);
        }
    }
    let cut = end - start;
    if cut < tail.len() {
        assert(tail[cut] == payload[end]);
        assert(!is_continuation_byte(tail[cut]));
        is_char_boundary_iff_not_is_continuation_byte(tail, cut);
    } else {
        is_char_boundary_start_end_of_seq(tail);
    }
    valid_utf8_split(tail, cut);
    assert(tail.subrange(0, cut) =~= error_code_bytes(payload));
}

/// The classification in terms of the decoded text: a payload that is
/// UTF-8 is a failure report exactly when its text begins with `--`, else
/// the completion signal exactly when its text begins with `done!`, and else
/// a content row that holds the text. A payload that is not UTF-8 is a
/// transport error, and nothing else is.
pub proof fn law_classified_by_text(payload: Seq<u8>)
    ensures
        classify(payload) is TransportError <==> !valid_utf8(payload),
        valid_utf8(payload) ==> {
            let text = decode_utf8(payload);
            &&& classify(payload) is AppError <==> "--"@.is_prefix_of(text)
            &&& classify(payload) is Completion <==> !"--"@.is_prefix_of(text)
                && "done!"@.is_prefix_of(text)
            &&& classify(payload) is Data <==> !"--"@.is_prefix_of(text)
                && !"done!"@.is_prefix_of(text)
            &&& classify(payload) matches RowModel::AppError { message, .. } ==> message == text
            &&& classify(payload) matches RowModel::Data { row_text } ==> row_text == text
        },
{
    if valid_utf8(payload) {
        lemma_prefix_in_bytes_and_text("--"@, payload);
        lemma_prefix_in_bytes_and_text("done!"@, payload);
    }
}

/// Copies the code out of a failure report.
fn error_code_of(payload: &Vec<u8>) -> (code: Vec<u8>)
    requires
        error_marker().is_prefix_of(payload@),
    ensures
        code@ == error_code_bytes(payload@),
{
    proof {
        lemma_error_marker();
    }
    let marker_len = "--".as_bytes().len();
    let mut start: usize = marker_len;
    while start < payload.len() && payload[start] == SPACE
        invariant
            marker_len <= start <= payload@.len(),
            skip_spaces(payload@, marker_len as int) == skip_spaces(payload@, start as int),
        decreases payload@.len() - start,
    {
        start += 1;
    }
    let mut end: usize = start;
    while end < payload.len() && payload[end] != SPACE
        invariant
            start <= end <= payload@.len(),
            skip_word(payload@, start as int) == skip_word(payload@, end as int),
        decreases payload@.len() - end,
    {
        end += 1;
    }
    let mut code: Vec<u8> = Vec::new();
    code.extend_from_slice(vstd::slice::slice_subrange(payload.as_slice(), start, end));
    assert(code@ =~= payload@.subrange(start as int, end as int));
    code
}

/// Classifies a frame's payload. The payload is first decoded as UTF-8; if
/// that fails the row is a transport error. Otherwise its prefix decides.
pub fn classify_row(payload: Vec<u8>) -> (row: ClassifiedRow)
    ensures
        row@ == classify(payload@),
{
    let is_error = starts_with(payload.as_slice(), "--".as_bytes());
    let is_done = starts_with(payload.as_slice(), "done!".as_bytes());
    let code_bytes: Vec<u8> = if is_error {
        error_code_of(&payload)
    } else {
        Vec::new()
    };
    let ghost bytes = payload@;
    match string_from_utf8(payload) {
        None => ClassifiedRow::TransportError,
        Some(text) => {
            if is_error {
                proof {
                    lemma_code_is_text(bytes);
                }
                match string_from_utf8(code_bytes) {
                    Some(code) => ClassifiedRow::AppError { code, message: text },
                    None => unreached(),
                }
            } else if is_done {
                ClassifiedRow::Completion
            } else {
                ClassifiedRow::Data { row_text: text }
            }
        },
    }
}

} // verus!
