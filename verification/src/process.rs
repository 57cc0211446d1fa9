//! Processing a whole recording in one call.

use vstd::prelude::*;
use vstd::string::*;

use crate::driver::{decode_frames, frames_in, DecodedView, Driver};
use crate::recording::{Frame, FrameView};
use crate::reencode::{explode, exploded};
use crate::trace::{trace, trace_lines};

verus! {

/// What processing a recording gives: the lines of the trace and the frames
/// of the new recording.
#[derive(Clone, Debug, PartialEq, Eq)]
pub struct Explosion {
    /// The trace, line by line.
    pub lines: Vec<String>,
    /// The frames of the new recording; none when only decoding.
    pub frames: Vec<Frame>,
}

/// The decoded frames of a whole recording.
pub open spec fn decoded_recording(recording: Seq<u8>) -> Seq<DecodedView> {
    decode_frames(frames_in(recording))
}

/// The frames of the new recording: those of every re-encoded event when
/// re-encoding, none when only decoding.
pub open spec fn new_frames(recording: Seq<u8>, reencode: bool) -> Seq<FrameView> {
    if reencode {
        exploded(decoded_recording(recording))
    } else {
        Seq::empty()
    }
}

/// Decodes a recording and renders its trace. When `reencode` is set, the
/// trace reports the display width of print runs and every event is
/// re-encoded into a frame of a new recording.
pub fn process(recording: &[u8], reencode: bool) -> (out: Explosion)
    ensures
        out.lines.deep_view() == trace_lines(decoded_recording(recording@), reencode),
        out.frames.deep_view() == new_frames(recording@, reencode),
{
    let mut driver = Driver::new();
    driver.feed(recording);
    proof {
        assert(Seq::<u8>::empty() + recording@ =~= recording@);
    }
    let decoded = driver.finish();
    let slice = decoded.as_slice();
    proof {
        assert(slice.deep_view() =~= decoded.deep_view());
    }
    let lines = trace(slice, reencode);
    let frames = if reencode {
        explode(slice)
    } else {
        Vec::new()
    };
    proof {
        if !reencode {
            assert(frames.deep_view() =~= Seq::<FrameView>::empty());
        }
    }
    Explosion { lines, frames }
}

/// The name of the file that the new recording of `name` is written to.
pub open spec fn exploded_name(name: Seq<char>) -> Seq<char> {
    "exploded-"@ + name
}

/// Derives the name of the output file from the name of the input file.
pub fn output_name(name: &str) -> (out: String)
    ensures
        out@ == exploded_name(name@),
{
    let mut out = String::from_str("exploded-");
    out.append(name);
    out
}

} // verus!
