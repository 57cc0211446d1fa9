//! The readable trace of a decoded recording.

use vstd::prelude::*;
use vstd::string::*;

use crate::decimal::{digits, latin1, push_digits_text};
use crate::driver::{Decoded, DecodedView};
use crate::event::{Event, TerminalEvent};
use crate::render::{render, rendered};

verus! {

/// The header line of the frame with the given number, counted from 1.
pub open spec fn frame_header(number: nat) -> Seq<char> {
    "FRAME "@ + latin1(digits(number))
}

/// One rendered line for each event.
pub open spec fn event_lines(events: Seq<Event>, with_width: bool) -> Seq<Seq<char>> {
    Seq::new(events.len(), |i: int| rendered(events[i], with_width))
}

/// The lines of the frame at `index`, counted from 0: a blank line before
/// every frame but the first, the header, and the events.
pub open spec fn frame_lines(frame: DecodedView, index: nat, with_width: bool) -> Seq<Seq<char>> {
    let separator: Seq<Seq<char>> = if index > 0 {
        seq![Seq::<char>::empty()]
    } else {
        Seq::empty()
    };
    separator + seq![frame_header(index + 1)] + event_lines(frame.events, with_width)
}

/// The lines of the whole trace.
pub open spec fn trace_lines(frames: Seq<DecodedView>, with_width: bool) -> Seq<Seq<char>>
    decreases frames.len(),
{
    if frames.len() == 0 {
        Seq::empty()
    } else {
        trace_lines(frames.drop_last(), with_width) + frame_lines(
            frames.last(),
            (frames.len() - 1) as nat,
            with_width,
        )
    }
}

/// Appends one rendered line for each event.
pub fn push_event_lines(lines: &mut Vec<String>, events: &[TerminalEvent], with_width: bool)
    ensures
        final(lines).deep_view() == old(lines).deep_view() + event_lines(
            events.deep_view(),
            with_width,
        ),
{
    let mut i: usize = 0;
    proof {
        assert(lines.deep_view() =~= old(lines).deep_view() + event_lines(
            events.deep_view().take(0),
            with_width,
        ));
    }
    while i < events.len()
        invariant
            i <= events.len(),
            lines.deep_view() == old(lines).deep_view() + event_lines(
                events.deep_view().take(i as int),
                with_width,
            ),
        decreases events.len() - i,
    {
        let ghost shown = lines.deep_view();
        let line = render(&events[i], with_width);
        lines.push(line);
        proof {
            assert(lines.deep_view() =~= shown.push(line@));
            assert(events.deep_view()[i as int] == events@[i as int]@);
            assert(lines.deep_view() =~= old(lines).deep_view() + event_lines(
                events.deep_view().take(i + 1),
                with_width,
            ));
        }
        i = i + 1;
    }
    proof {
        assert(events.deep_view().take(events.len() as int) =~= events.deep_view());
    }
}

/// Writes the trace of the decoded frames: for each frame its header and
/// one line per event, with a blank line between frames.
pub fn trace(frames: &[Decoded], with_width: bool) -> (lines: Vec<String>)
    ensures
        lines.deep_view() == trace_lines(frames.deep_view(), with_width),
{
    let mut lines: Vec<String> = Vec::new();
    let mut i: usize = 0;
    proof {
        assert(lines.deep_view() =~= trace_lines(frames.deep_view().take(0), with_width));
    }
    while i < frames.len()
        invariant
            i <= frames.len(),
            lines.deep_view() == trace_lines(frames.deep_view().take(i as int), with_width),
        decreases frames.len() - i,
    {
        let ghost shown = lines.deep_view();
        if i > 0 {
            lines.push(String::new());
        }
        let ghost separated = lines.deep_view();
        let mut header = String::from_str("FRAME ");
        push_digits_text(&mut header, (i as u128) + 1);
        lines.push(header);
        let ghost headed = lines.deep_view();
        let events = frames[i].events.as_slice();
        push_event_lines(&mut lines, events, with_width);
        proof {
            let done = frames.deep_view().take(i as int);
            let next = frames.deep_view().take(i + 1);
            assert(next.drop_last() =~= done);
            assert(next.last() == frames@[i as int]@);
            assert(events.deep_view() =~= frames@[i as int]@.events);
            if i > 0 {
                assert(separated =~= shown.push(Seq::<char>::empty()));
            }
            assert(headed =~= separated.push(frame_header((i + 1) as nat)));
            assert(lines.deep_view() =~= shown + frame_lines(
                frames@[i as int]@,
                i as nat,
                with_width,
            ));
        }
        i = i + 1;
    }
    proof {
        assert(frames.deep_view().take(frames.len() as int) =~= frames.deep_view());
    }
    lines
}

} // verus!
