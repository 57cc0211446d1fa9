//! The frame driver: splits a recording into frames, decodes every frame
//! into terminal events, and turns the result into a trace and into a new
//! recording.

use vstd::prelude::*;

use crate::classifier::{consumed, decode_with, decoded_events};
use crate::event::{Event, TerminalEvent};
use crate::recording::{buffered, frame_len, has_frame, head_frame, next_frame, FrameView};

verus! {

/// The events decoded from one frame of the source recording.
#[derive(Clone, Debug, PartialEq, Eq)]
pub struct Decoded {
    /// The time of the source frame, in microseconds.
    pub micros: u64,
    /// The events of its payload, in order.
    pub events: Vec<TerminalEvent>,
}

/// The mathematical value of a decoded frame.
pub struct DecodedView {
    pub micros: u64,
    pub events: Seq<Event>,
}

impl View for Decoded {
    type V = DecodedView;

    open spec fn view(&self) -> DecodedView {
        DecodedView { micros: self.micros, events: self.events.deep_view() }
    }
}

impl DeepView for Decoded {
    type V = DecodedView;

    open spec fn deep_view(&self) -> DecodedView {
        self.view()
    }
}

/// The whole frames of `stream`, in order. What follows the last whole
/// frame is not part of any.
pub open spec fn frames_in(stream: Seq<u8>) -> Seq<FrameView>
    decreases stream.len(),
{
    if has_frame(stream) {
        seq![head_frame(stream)] + frames_in(stream.skip(frame_len(stream)))
    } else {
        Seq::empty()
    }
}

/// What is left of `stream` after its whole frames.
pub open spec fn rest(stream: Seq<u8>) -> Seq<u8>
    decreases stream.len(),
{
    if has_frame(stream) {
        rest(stream.skip(frame_len(stream)))
    } else {
        stream
    }
}

/// The payloads of the frames, one after the other.
pub open spec fn payloads(frames: Seq<FrameView>) -> Seq<u8>
    decreases frames.len(),
{
    if frames.len() == 0 {
        Seq::empty()
    } else {
        payloads(frames.drop_last()) + frames.last().data
    }
}

/// Each frame decoded. The classifier runs on through all payloads, so a
/// sequence may span frames; the pending text is flushed at the end of
/// every frame.
pub open spec fn decode_frames(frames: Seq<FrameView>) -> Seq<DecodedView>
    decreases frames.len(),
{
    if frames.len() == 0 {
        Seq::empty()
    } else {
        decode_frames(frames.drop_last()).push(
            DecodedView {
                micros: frames.last().micros,
                events: decoded_events(payloads(frames.drop_last()), frames.last().data),
            },
        )
    }
}

/// More bytes behind a stream leave its whole frames as they are; the new
/// frames are those of the rest with the new bytes behind it.
pub proof fn lemma_frames_append(stream: Seq<u8>, more: Seq<u8>)
    ensures
        frames_in(stream + more) == frames_in(stream) + frames_in(rest(stream) + more),
        rest(stream + more) == rest(rest(stream) + more),
    decreases stream.len(),
{
    if has_frame(stream) {
        let n = frame_len(stream);
        let longer = stream + more;
        assert(has_frame(longer));
        assert(frame_len(longer) == n);
        assert(head_frame(longer).data =~= head_frame(stream).data);
        assert(longer.skip(n) =~= stream.skip(n) + more);
        lemma_frames_append(stream.skip(n), more);
        assert(frames_in(longer) =~= frames_in(stream) + frames_in(rest(stream) + more));
    } else {
        assert(frames_in(stream) + frames_in(stream + more) =~= frames_in(stream + more));
    }
}

/// Decodes a recording that arrives in chunks.
pub struct Driver {
    reader: ttyrec::Parser,
    classifier: vte::Parser,
    frames: Vec<Decoded>,
    stream: Ghost<Seq<u8>>,
}

impl Driver {
    /// All bytes fed so far.
    pub closed spec fn stream(&self) -> Seq<u8> {
        self.stream@
    }

    /// The frames decoded so far.
    pub closed spec fn decoded(&self) -> Seq<DecodedView> {
        self.frames.deep_view()
    }

    /// Every whole frame fed so far has been decoded, and only the bytes
    /// behind the last whole frame wait in the reader.
    pub closed spec fn well_formed(&self) -> bool {
        &&& buffered(self.reader) == rest(self.stream@)
        &&& consumed(self.classifier) == payloads(frames_in(self.stream@))
        &&& self.frames.deep_view() == decode_frames(frames_in(self.stream@))
    }

    /// What the driver has decoded is a function of the bytes fed so far,
    /// however they were cut into chunks.
    pub proof fn lemma_decoded(&self)
        requires
            self.well_formed(),
        ensures
            self.decoded() == decode_frames(frames_in(self.stream())),
    {
    }

    /// A driver that has been fed nothing.
    pub fn new() -> (driver: Driver)
        ensures
            driver.well_formed(),
            driver.stream() == Seq::<u8>::empty(),
    {
        let driver = Driver {
            reader: ttyrec::Parser::new(),
            classifier: vte::Parser::new(),
            frames: Vec::new(),
            stream: Ghost(Seq::empty()),
        };
        proof {
            assert(driver.frames.deep_view() =~= Seq::<DecodedView>::empty());
        }
        driver
    }

    /// Feeds the next chunk of the recording and decodes every frame that
    /// it completes.
    pub fn feed(&mut self, chunk: &[u8])
        requires
            old(self).well_formed(),
        ensures
            final(self).well_formed(),
            final(self).stream() == old(self).stream() + chunk@,
    {
        let ghost before = self.stream@;
        let ghost after = before + chunk@;
        let ghost mut parsed = frames_in(before);
        self.reader.add_bytes(chunk);
        self.stream = Ghost(after);
        proof {
            lemma_frames_append(before, chunk@);
        }
        loop
            invariant
                self.stream@ == after,
                parsed + frames_in(buffered(self.reader)) == frames_in(after),
                rest(buffered(self.reader)) == rest(after),
                consumed(self.classifier) == payloads(parsed),
                self.frames.deep_view() == decode_frames(parsed),
            ensures
                self.well_formed(),
                self.stream@ == after,
            decreases buffered(self.reader).len(),
        {
            let ghost waiting = buffered(self.reader);
            match next_frame(&mut self.reader) {
                Some(frame) => {
                    let events = decode_with(&mut self.classifier, frame.data.as_slice());
                    let ghost shown = self.frames.deep_view();
                    self.frames.push(Decoded { micros: frame.micros, events });
                    proof {
                        let longer = parsed.push(frame@);
                        assert(longer.drop_last() =~= parsed);
                        assert(longer.last() == frame@);
                        assert(self.frames.deep_view() =~= shown.push(
                            DecodedView {
                                micros: frame.micros,
                                events: decoded_events(payloads(parsed), frame@.data),
                            },
                        ));
                        assert(longer + frames_in(buffered(self.reader)) =~= parsed + frames_in(
                            waiting,
                        ));
                        parsed = longer;
                    }
                },
                None => {
                    proof {
                        assert(parsed + frames_in(waiting) =~= parsed);
                    }
                    break ;
                },
            }
        }
    }

    /// The frames decoded so far.
    pub fn frames(&self) -> (frames: &Vec<Decoded>)
        requires
            self.well_formed(),
        ensures
            frames.deep_view() == decode_frames(frames_in(self.stream())),
            frames.deep_view() == self.decoded(),
    {
        &self.frames
    }

    /// Ends the decoding and hands out the decoded frames.
    pub fn finish(self) -> (frames: Vec<Decoded>)
        requires
            self.well_formed(),
        ensures
            frames.deep_view() == decode_frames(frames_in(self.stream())),
    {
        self.frames
    }
}

} // verus!
