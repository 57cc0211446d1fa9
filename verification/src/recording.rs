//! Frames of a session recording, and the codec of `ttyrec` that reads and
//! writes them.
//!
//! A recording is a plain concatenation of frames. Each frame is a header of
//! three little-endian 32-bit numbers (seconds, microseconds, payload
//! length) and then the payload.

use vstd::prelude::*;

verus! {

/// The length of a frame header in bytes.
pub const HEADER_LEN: usize = 12;

/// Microseconds per second.
pub const MICROS_PER_SEC: u64 = 1_000_000;

/// One timestamped chunk of terminal output.
#[derive(Clone, Debug, PartialEq, Eq)]
pub struct Frame {
    /// Time since the start of the recording, in microseconds.
    pub micros: u64,
    /// The bytes written at that time.
    pub data: Vec<u8>,
}

/// The mathematical value of a frame.
pub struct FrameView {
    pub micros: u64,
    pub data: Seq<u8>,
}

impl View for Frame {
    type V = FrameView;

    open spec fn view(&self) -> FrameView {
        FrameView { micros: self.micros, data: self.data@ }
    }
}

impl DeepView for Frame {
    type V = FrameView;

    open spec fn deep_view(&self) -> FrameView {
        self.view()
    }
}

/// Why a frame cannot be written.
#[derive(Clone, Copy, Debug, PartialEq, Eq)]
pub enum FrameError {
    /// The time does not fit the header: more than `u32::MAX` seconds.
    TooLong { secs: u64 },
    /// The payload does not fit the header: more than `u32::MAX` bytes.
    TooBig { len: usize },
}

/// The little-endian 32-bit number at `at`.
pub open spec fn le32(bytes: Seq<u8>, at: int) -> int {
    bytes[at] + 0x100 * bytes[at + 1] + 0x1_0000 * bytes[at + 2] + 0x100_0000 * bytes[at + 3]
}

/// The four bytes of a 32-bit number, least significant first.
pub open spec fn le32_bytes(n: int) -> Seq<u8> {
    seq![
        (n % 0x100) as u8,
        (n / 0x100 % 0x100) as u8,
        (n / 0x1_0000 % 0x100) as u8,
        (n / 0x100_0000 % 0x100) as u8,
    ]
}

/// The length of the frame at the head of `stream`, header included, as its
/// header gives it.
pub open spec fn frame_len(stream: Seq<u8>) -> int {
    HEADER_LEN + le32(stream, 8)
}

/// A whole frame stands at the head of `stream`.
pub open spec fn has_frame(stream: Seq<u8>) -> bool {
    stream.len() >= HEADER_LEN && stream.len() >= frame_len(stream)
}

/// The frame at the head of `stream`.
pub open spec fn head_frame(stream: Seq<u8>) -> FrameView {
    FrameView {
        micros: (le32(stream, 0) * MICROS_PER_SEC + le32(stream, 4)) as u64,
        data: stream.subrange(HEADER_LEN as int, frame_len(stream)),
    }
}

/// The bytes that a frame is written as.
pub open spec fn serialized(frame: FrameView) -> Seq<u8> {
    le32_bytes(frame.micros as int / MICROS_PER_SEC as int) + le32_bytes(
        frame.micros as int % MICROS_PER_SEC as int,
    ) + le32_bytes(frame.data.len() as int) + frame.data
}

/// A frame can be written when its seconds and its payload length both fit
/// in 32 bits.
pub open spec fn fits(frame: FrameView) -> bool {
    frame.micros / MICROS_PER_SEC <= u32::MAX && frame.data.len() <= u32::MAX
}

/// `ttyrec::Parser`, the reader of recordings. Nothing inside it is
/// visible here.
#[verifier::external_type_specification]
#[verifier::external_body]
pub struct ExReader(ttyrec::Parser);

/// The bytes that were added to a reader and have not left it in a frame.
pub uninterp spec fn buffered(reader: ttyrec::Parser) -> Seq<u8>;

/// `ttyrec::Parser::new` gives a reader with nothing buffered.
pub assume_specification[ ttyrec::Parser::new ]() -> (reader: ttyrec::Parser)
    ensures
        buffered(reader) == Seq::<u8>::empty(),
;

/// `ttyrec::Parser::add_bytes` appends the bytes to what is buffered.
pub assume_specification[ ttyrec::Parser::add_bytes ](reader: &mut ttyrec::Parser, bytes: &[u8])
    ensures
        buffered(*final(reader)) == buffered(*old(reader)) + bytes@,
;

/// Takes the next frame with `ttyrec::Parser::next_frame`.
///
/// A frame comes out exactly when header and payload are buffered in full;
/// its bytes then leave the buffer. Otherwise nothing is lost. The time is
/// the header's seconds and microseconds taken together.
#[verifier::external_body]
pub(crate) fn next_frame(reader: &mut ttyrec::Parser) -> (frame: Option<Frame>)
    ensures
        match frame {
            Some(f) => {
                &&& has_frame(buffered(*old(reader)))
                &&& f@ == head_frame(buffered(*old(reader)))
                &&& buffered(*final(reader)) == buffered(*old(reader)).skip(
                    frame_len(buffered(*old(reader))),
                )
            },
            None => {
                &&& !has_frame(buffered(*old(reader)))
                &&& buffered(*final(reader)) == buffered(*old(reader))
            },
        },
{
    match reader.next_frame() {
        Some(frame) => Some(Frame { micros: frame.time.as_micros() as u64, data: frame.data }),
        None => None,
    }
}

/// Writes one frame with the `TryFrom<ttyrec::Frame>` of `Vec<u8>`.
///
/// The codec refuses a frame whose seconds or payload length exceed 32
/// bits, and else writes header and payload.
#[verifier::external_body]
pub(crate) fn frame_bytes(frame: &Frame) -> (bytes: Option<Vec<u8>>)
    ensures
        bytes is Some <==> fits(frame@),
        bytes matches Some(b) ==> b@ == serialized(frame@),
{
    let time = std::time::Duration::from_micros(frame.micros);
    Vec::<u8>::try_from(ttyrec::Frame { time, data: frame.data.clone() }).ok()
}

impl Frame {
    /// Writes the frame as bytes, or says why it cannot be written.
    pub fn to_bytes(&self) -> (result: Result<Vec<u8>, FrameError>)
        ensures
            match result {
                Ok(bytes) => fits(self@) && bytes@ == serialized(self@),
                Err(FrameError::TooLong { secs }) => {
                    &&& secs == self.micros / MICROS_PER_SEC
                    &&& secs > u32::MAX
                },
                Err(FrameError::TooBig { len }) => {
                    &&& self.micros / MICROS_PER_SEC <= u32::MAX
                    &&& len == self.data@.len()
                    &&& len > u32::MAX
                },
            },
    {
        match frame_bytes(self) {
            Some(bytes) => Ok(bytes),
            None => {
                let secs = self.micros / MICROS_PER_SEC;
                if secs > 0xffff_ffff {
                    Err(FrameError::TooLong { secs })
                } else {
                    Err(FrameError::TooBig { len: self.data.len() })
                }
            },
        }
    }
}

} // verus!
