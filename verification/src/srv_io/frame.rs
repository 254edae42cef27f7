//! Frame decoder for the worker's length-prefixed wire format.
//!
//! Every unit the worker sends is a two-byte big-endian length followed by
//! exactly that many payload bytes. The decoder knows nothing about what a
//! payload means.

use vstd::prelude::*;
use vstd::slice::slice_subrange;
use vstd::slice::slice_to_vec;

verus! {

/// Number of bytes in a length prefix.
pub const PREFIX_LEN: usize = 2;

/// The number that two bytes denote in big-endian order.
pub open spec fn be_u16(hi: u8, lo: u8) -> nat {
    (hi as nat) * 256 + (lo as nat)
}

/// The wire form of a payload: its length in two big-endian bytes, then the payload.
pub open spec fn frame_bytes(payload: Seq<u8>) -> Seq<u8>
    recommends
        payload.len() <= u16::MAX,
{
    seq![(payload.len() / 256) as u8, (payload.len() % 256) as u8] + payload
}

/// What reading one frame at `pos` yields: the payload and the position just
/// behind it, or `None` when the bytes run out before the frame is whole.
pub open spec fn frame_at(bytes: Seq<u8>, pos: int) -> Option<(Seq<u8>, int)> {
    if 0 <= pos && pos + 2 <= bytes.len() {
        let end = pos + 2 + be_u16(bytes[pos], bytes[pos + 1]);
        if end <= bytes.len() {
            Some((bytes.subrange(pos + 2, end), end))
        } else {
            None
        }
    } else {
        None
    }
}

/// Reads a two-byte big-endian number.
pub fn frame_length(hi: u8, lo: u8) -> (n: u16)
    ensures
        n as nat == be_u16(hi, lo),
{
    (hi as u16) * 256 + (lo as u16)
}

/// A read that could not be completed in full, or a payload that is not text.
#[derive(Debug, Clone, Copy, PartialEq, Eq)]
pub struct TransportError {}

/// One length-prefixed unit of the worker's reply.
#[derive(Debug, PartialEq, Eq)]
pub struct Frame {
    length: u16,
    payload: Vec<u8>,
}

impl Frame {
    #[verifier::type_invariant]
    spec fn well_formed(&self) -> bool {
        self.payload@.len() == self.length
    }

    /// The payload bytes.
    pub closed spec fn bytes(&self) -> Seq<u8> {
        self.payload@
    }

    /// Wraps a payload, if its length fits the two-byte prefix.
    pub fn new(payload: Vec<u8>) -> (frame: Option<Frame>)
        ensures
            frame is Some <==> payload@.len() <= u16::MAX,
            frame matches Some(f) ==> f.bytes() == payload@,
    {
        if payload.len() <= 0xffff {
            Some(Frame { length: payload.len() as u16, payload })
        } else {
            None
        }
    }

    /// The length that the prefix declared.
    pub fn length(&self) -> (n: u16)
        ensures
            n == self.bytes().len(),
    {
        proof {
            use_type_invariant(self);
        }
        self.length
    }

    /// The payload bytes.
    pub fn payload(&self) -> (p: &Vec<u8>)
        ensures
            p@ == self.bytes(),
            p@.len() <= u16::MAX,
    {
        proof {
            use_type_invariant(self);
        }
        &self.payload
    }

    /// Gives up the payload bytes.
    pub fn into_payload(self) -> (p: Vec<u8>)
        ensures
            p@ == self.bytes(),
            p@.len() <= u16::MAX,
    {
        proof {
            use_type_invariant(&self);
        }
        self.payload
    }
}

/// Where the decoding of one frame stands.
///
/// The decoder never touches a connection. It says how many bytes it wants
/// next, and is fed the outcome of reading exactly that many.
#[derive(Debug, PartialEq, Eq)]
pub enum FrameDecoder {
    /// Waiting for the two bytes of the length prefix.
    Header,
    /// The prefix declared `length` payload bytes, which are still to come.
    Payload { length: u16 },
    /// The frame is whole.
    Ready(Frame),
    /// A read fell short.
    Broken,
}

/// The decoder's state with the frame taken by its bytes.
pub enum DecoderModel {
    Header,
    Payload { length: nat },
    Ready { payload: Seq<u8> },
    Broken,
}

impl View for FrameDecoder {
    type V = DecoderModel;

    open spec fn view(&self) -> DecoderModel {
        match self {
            FrameDecoder::Header => DecoderModel::Header,
            FrameDecoder::Payload { length } => DecoderModel::Payload { length: *length as nat },
            FrameDecoder::Ready(frame) => DecoderModel::Ready { payload: frame.bytes() },
            FrameDecoder::Broken => DecoderModel::Broken,
        }
    }
}

/// How many bytes a decoder in this state asks for, if any.
pub open spec fn decoder_wants(state: DecoderModel) -> Option<nat> {
    match state {
        DecoderModel::Header => Some(2nat),
        DecoderModel::Payload { length } => Some(length),
        DecoderModel::Ready { .. } => None,
        DecoderModel::Broken => None,
    }
}

/// The state that follows when a read of the wanted bytes gave `chunk`
/// (`None` for a read that failed). A chunk of any other length than the
/// wanted one counts as a failed read: nothing is padded or cut.
pub open spec fn decoder_step(state: DecoderModel, chunk: Option<Seq<u8>>) -> DecoderModel {
    match state {
        DecoderModel::Header => match chunk {
            Some(c) if c.len() == 2 => DecoderModel::Payload { length: be_u16(c[0], c[1]) },
            _ => DecoderModel::Broken,
        },
        DecoderModel::Payload { length } => match chunk {
            Some(c) if c.len() == length => DecoderModel::Ready { payload: c },
            _ => DecoderModel::Broken,
        },
        DecoderModel::Ready { payload } => DecoderModel::Ready { payload },
        DecoderModel::Broken => DecoderModel::Broken,
    }
}

impl FrameDecoder {
    /// A decoder that waits for a length prefix.
    pub fn new() -> (decoder: FrameDecoder)
        ensures
            decoder@ == DecoderModel::Header,
    {
        FrameDecoder::Header
    }

    /// The number of bytes to read next, or `None` once the frame is whole or lost.
    pub fn wanted(&self) -> (count: Option<usize>)
        ensures
            match count {
                Some(n) => decoder_wants(self@) == Some(n as nat),
                None => decoder_wants(self@) is None,
            },
    {
        match self {
            FrameDecoder::Header => Some(PREFIX_LEN),
            FrameDecoder::Payload { length } => Some(*length as usize),
            FrameDecoder::Ready(_) => None,
            FrameDecoder::Broken => None,
        }
    }

    /// Takes the outcome of reading the wanted bytes and moves on.
    pub fn feed(self, chunk: Option<Vec<u8>>) -> (next: FrameDecoder)
        ensures
            next@ == decoder_step(
                self@,
                match chunk {
                    Some(c) => Some(c@),
                    None => None,
                },
            ),
    {
        match self {
            FrameDecoder::Header => match chunk {
                Some(c) => {
                    if c.len() == PREFIX_LEN {
                        FrameDecoder::Payload { length: frame_length(c[0], c[1]) }
                    } else {
                        FrameDecoder::Broken
                    }
                },
                None => FrameDecoder::Broken,
            },
            FrameDecoder::Payload { length } => match chunk {
                Some(c) => {
                    if c.len() == length as usize {
                        FrameDecoder::Ready(Frame { length, payload: c })
                    } else {
                        FrameDecoder::Broken
                    }
                },
                None => FrameDecoder::Broken,
            },
            FrameDecoder::Ready(frame) => FrameDecoder::Ready(frame),
            FrameDecoder::Broken => FrameDecoder::Broken,
        }
    }

    /// The decoded frame, the failure, or `None` while bytes are still wanted.
    pub fn finish(self) -> (outcome: Option<Result<Frame, TransportError>>)
        ensures
            match outcome {
                Some(Ok(frame)) => self@ == (DecoderModel::Ready { payload: frame.bytes() }),
                Some(Err(_)) => self@ == DecoderModel::Broken,
                None => decoder_wants(self@) is Some,
            },
    {
        match self {
            FrameDecoder::Ready(frame) => Some(Ok(frame)),
            FrameDecoder::Broken => Some(Err(TransportError {  })),
            _ => None,
        }
    }
}

/// Bytes held in memory and read in order, as a connection is.
///
/// A read that asks for more than is left fails and, like a connection that
/// has reached its end, leaves nothing behind for later reads.
#[derive(Debug)]
pub struct ByteStream {
    bytes: Vec<u8>,
    pos: usize,
}

impl ByteStream {
    #[verifier::type_invariant]
    spec fn well_formed(&self) -> bool {
        self.pos <= self.bytes@.len()
    }

    /// Every byte of the stream, read or not.
    pub closed spec fn bytes(&self) -> Seq<u8> {
        self.bytes@
    }

    /// How many bytes have been read.
    pub closed spec fn position(&self) -> int {
        self.pos as int
    }

    /// A stream over `bytes`, with nothing read yet.
    pub fn new(bytes: Vec<u8>) -> (stream: ByteStream)
        ensures
            stream.bytes() == bytes@,
            stream.position() == 0,
    {
        ByteStream { bytes, pos: 0 }
    }

    /// How many bytes are left to read.
    pub fn remaining(&self) -> (left: usize)
        ensures
            left == self.bytes().len() - self.position(),
            0 <= self.position() <= self.bytes().len(),
    {
        proof {
            use_type_invariant(self);
        }
        self.bytes.len() - self.pos
    }

    /// Reads exactly `count` bytes, or fails and drains the stream.
    pub fn read_exact(&mut self, count: usize) -> (chunk: Option<Vec<u8>>)
        ensures
            final(self).bytes() == old(self).bytes(),
            0 <= old(self).position() <= old(self).bytes().len(),
            match chunk {
                Some(c) => {
                    &&& old(self).position() + count <= old(self).bytes().len()
                    &&& c@ == old(self).bytes().subrange(
                        old(self).position(),
                        old(self).position() + count,
                    )
                    &&& final(self).position() == old(self).position() + count
                },
                None => {
                    &&& old(self).position() + count > old(self).bytes().len()
                    &&& final(self).position() == old(self).bytes().len()
                },
            },
    {
        proof {
            use_type_invariant(&*self);
        }
        let left = self.bytes.len() - self.pos;
        if count <= left {
            let start = self.pos;
            let chunk = slice_to_vec(slice_subrange(self.bytes.as_slice(), start, start + count));
            self.pos = start + count;
            Some(chunk)
        } else {
            self.pos = self.bytes.len();
            None
        }
    }
}

/// Decodes the next frame of an in-memory stream: two bytes of length, then
/// that many bytes of payload. Fails if either read falls short.
pub fn read_frame(stream: &mut ByteStream) -> (outcome: Result<Frame, TransportError>)
    ensures
        final(stream).bytes() == old(stream).bytes(),
        match outcome {
            Ok(frame) => frame_at(old(stream).bytes(), old(stream).position()) == Some(
                (frame.bytes(), final(stream).position()),
            ),
            Err(_) => {
                &&& frame_at(old(stream).bytes(), old(stream).position()) is None
                &&& final(stream).position() == old(stream).bytes().len()
            },
        },
{
    let decoder = FrameDecoder::new();
    let header = stream.read_exact(PREFIX_LEN);
    let decoder = decoder.feed(header);
    match decoder.wanted() {
        Some(count) => {
            let body = stream.read_exact(count);
            let decoder = decoder.feed(body);
            match decoder.finish() {
                Some(outcome) => outcome,
                None => Err(TransportError {  }),
            }
        },
        None => Err(TransportError {  }),
    }
}

} // verus!
