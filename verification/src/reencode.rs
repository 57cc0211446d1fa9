//! The new recording: one frame for each re-encoded event.

use vstd::prelude::*;

use crate::driver::{Decoded, DecodedView};
use crate::encode::{encode, encoded};
use crate::event::{Event, TerminalEvent};
use crate::recording::{fits, serialized, Frame, FrameError, FrameView, MICROS_PER_SEC};

verus! {

/// The frames that the events of one source frame give: one for each event
/// with a re-encoding that is not empty, all at the time of the source frame.
pub open spec fn event_frames(micros: u64, events: Seq<Event>) -> Seq<FrameView>
    decreases events.len(),
{
    if events.len() == 0 {
        Seq::empty()
    } else {
        let before = event_frames(micros, events.drop_last());
        let data = encoded(events.last());
        if data.len() > 0 {
            before.push(FrameView { micros, data })
        } else {
            before
        }
    }
}

/// The frames of the new recording, in the order of the events.
pub open spec fn exploded(frames: Seq<DecodedView>) -> Seq<FrameView>
    decreases frames.len(),
{
    if frames.len() == 0 {
        Seq::empty()
    } else {
        exploded(frames.drop_last()) + event_frames(frames.last().micros, frames.last().events)
    }
}

/// Appends the frames of the events of one source frame.
pub fn push_event_frames(out: &mut Vec<Frame>, micros: u64, events: &[TerminalEvent])
    ensures
        final(out).deep_view() == old(out).deep_view() + event_frames(micros, events.deep_view()),
{
    let mut i: usize = 0;
    proof {
        assert(out.deep_view() =~= old(out).deep_view() + event_frames(
            micros,
            events.deep_view().take(0),
        ));
    }
    while i < events.len()
        invariant
            i <= events.len(),
            out.deep_view() == old(out).deep_view() + event_frames(
                micros,
                events.deep_view().take(i as int),
            ),
        decreases events.len() - i,
    {
        let ghost shown = out.deep_view();
        let data = encode(&events[i]);
        proof {
            let done = events.deep_view().take(i as int);
            let next = events.deep_view().take(i + 1);
            assert(next.drop_last() =~= done);
            assert(next.last() == events@[i as int]@);
        }
        if data.len() > 0 {
            let frame = Frame { micros, data };
            out.push(frame);
            proof {
                assert(out.deep_view() =~= shown.push(frame@));
                assert(out.deep_view() =~= old(out).deep_view() + event_frames(
                    micros,
                    events.deep_view().take(i + 1),
                ));
            }
        }
        i = i + 1;
    }
    proof {
        assert(events.deep_view().take(events.len() as int) =~= events.deep_view());
    }
}

/// Re-encodes the decoded frames into the frames of a new recording.
pub fn explode(frames: &[Decoded]) -> (out: Vec<Frame>)
    ensures
        out.deep_view() == exploded(frames.deep_view()),
{
    let mut out: Vec<Frame> = Vec::new();
    let mut i: usize = 0;
    proof {
        assert(out.deep_view() =~= exploded(frames.deep_view().take(0)));
    }
    while i < frames.len()
        invariant
            i <= frames.len(),
            out.deep_view() == exploded(frames.deep_view().take(i as int)),
        decreases frames.len() - i,
    {
        let events = frames[i].events.as_slice();
        push_event_frames(&mut out, frames[i].micros, events);
        proof {
            let done = frames.deep_view().take(i as int);
            let next = frames.deep_view().take(i + 1);
            assert(next.drop_last() =~= done);
            assert(next.last() == frames@[i as int]@);
            assert(events.deep_view() =~= frames@[i as int]@.events);
        }
        i = i + 1;
    }
    proof {
        assert(frames.deep_view().take(frames.len() as int) =~= frames.deep_view());
    }
    out
}

/// The bytes of a recording: its frames written one after the other.
pub open spec fn recording_bytes(frames: Seq<FrameView>) -> Seq<u8>
    decreases frames.len(),
{
    if frames.len() == 0 {
        Seq::empty()
    } else {
        recording_bytes(frames.drop_last()) + serialized(frames.last())
    }
}

/// The error that a frame which does not fit is refused with.
pub open spec fn frame_error(frame: FrameView) -> FrameError {
    if frame.micros / MICROS_PER_SEC > u32::MAX {
        FrameError::TooLong { secs: frame.micros / MICROS_PER_SEC }
    } else {
        FrameError::TooBig { len: frame.data.len() as usize }
    }
}

/// `at` is the first frame that cannot be written.
pub open spec fn first_misfit(frames: Seq<FrameView>, at: int) -> bool {
    &&& 0 <= at < frames.len()
    &&& !fits(frames[at])
    &&& forall|j: int| 0 <= j < at ==> fits(#[trigger] frames[j])
}

/// Writes the frames as the bytes of a recording. Fails with the error of
/// the first frame that cannot be written.
pub fn recording(frames: &[Frame]) -> (result: Result<Vec<u8>, FrameError>)
    ensures
        match result {
            Ok(bytes) => {
                &&& forall|j: int| 0 <= j < frames@.len() ==> fits(#[trigger] frames.deep_view()[j])
                &&& bytes@ == recording_bytes(frames.deep_view())
            },
            Err(error) => exists|at: int|
                first_misfit(frames.deep_view(), at) && error == frame_error(
                    frames.deep_view()[at],
                ),
        },
{
    let mut bytes: Vec<u8> = Vec::new();
    let mut i: usize = 0;
    proof {
        assert(bytes@ =~= recording_bytes(frames.deep_view().take(0)));
    }
    while i < frames.len()
        invariant
            i <= frames.len(),
            forall|j: int| 0 <= j < i ==> fits(#[trigger] frames.deep_view()[j]),
            bytes@ == recording_bytes(frames.deep_view().take(i as int)),
        decreases frames.len() - i,
    {
        match frames[i].to_bytes() {
            Ok(mut more) => {
                bytes.append(&mut more);
                proof {
                    let done = frames.deep_view().take(i as int);
                    let next = frames.deep_view().take(i + 1);
                    assert(next.drop_last() =~= done);
                    assert(next.last() == frames@[i as int]@);
                }
            },
            Err(error) => {
                proof {
                    assert(frames.deep_view()[i as int] == frames@[i as int]@);
                    assert(first_misfit(frames.deep_view(), i as int));
                }
                return Err(error);
            },
        }
        i = i + 1;
    }
    proof {
        assert(frames.deep_view().take(frames.len() as int) =~= frames.deep_view());
    }
    Ok(bytes)
}

} // verus!
