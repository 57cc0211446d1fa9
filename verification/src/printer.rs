//! The adapter between the sequence classifier and the event list.
//!
//! The classifier reports what it recognises through eight callbacks. The
//! [`Printer`] turns each callback into a [`TerminalEvent`], collecting
//! printable characters into one run that is flushed before any other event.

use vstd::prelude::*;
use vstd::slice::slice_to_vec;
use vstd::string::*;

use crate::event::{all_well_formed, strings_view, Event, TerminalEvent};

verus! {

/// One callback of the classifier, with the arguments it carries.
#[allow(inconsistent_fields)]
pub enum Call {
    Print(char),
    Execute(u8),
    Hook { params: Seq<i64>, intermediates: Seq<u8>, ignore: bool, action: char },
    Put(u8),
    Unhook,
    OscDispatch { params: Seq<Seq<u8>>, bell_terminated: bool },
    CsiDispatch { params: Seq<i64>, intermediates: Seq<u8>, ignore: bool, action: char },
    EscDispatch { intermediates: Seq<u8>, ignore: bool, byte: u8 },
}

/// The first intermediate byte, if there is one.
pub open spec fn first_intermediate(intermediates: Seq<u8>) -> Option<u8> {
    if intermediates.len() > 0 {
        Some(intermediates[0])
    } else {
        None
    }
}

/// The event that a callback stands for. `Print` only extends the pending
/// run, and the payload and end of a DCS sequence are not kept.
pub open spec fn event_of(call: Call) -> Option<Event> {
    match call {
        Call::Print(_) => None,
        Call::Execute(byte) => Some(Event::Control { byte }),
        Call::Hook { params, intermediates, .. } => Some(
            Event::Dcs { intermediate: first_intermediate(intermediates), params },
        ),
        Call::Put(_) => None,
        Call::Unhook => None,
        Call::OscDispatch { params, .. } => Some(Event::Osc { params }),
        Call::CsiDispatch { params, intermediates, action, .. } => Some(
            Event::Csi {
                intermediate: first_intermediate(intermediates),
                params,
                final_char: action,
            },
        ),
        Call::EscDispatch { intermediates, byte, .. } => Some(
            Event::Escape { intermediate: first_intermediate(intermediates), final_byte: byte },
        ),
    }
}

/// What a printer holds: the run of characters not yet flushed, and the
/// events decoded so far.
pub struct Decoding {
    pub pending: Seq<char>,
    pub events: Seq<Event>,
}

impl Decoding {
    /// Nothing pending, nothing decoded.
    pub open spec fn empty() -> Decoding {
        Decoding { pending: Seq::empty(), events: Seq::empty() }
    }

    /// The pending run, if any, becomes one `Print` event.
    pub open spec fn flushed(self) -> Decoding {
        if self.pending.len() > 0 {
            Decoding {
                pending: Seq::empty(),
                events: self.events.push(Event::Print { text: self.pending }),
            }
        } else {
            self
        }
    }

    /// The state after one callback.
    pub open spec fn step(self, call: Call) -> Decoding {
        match call {
            Call::Print(c) => Decoding { pending: self.pending.push(c), events: self.events },
            Call::Put(_) => self,
            Call::Unhook => self,
            _ => Decoding {
                pending: Seq::empty(),
                events: self.flushed().events.push(event_of(call)->0),
            },
        }
    }

    /// The state after a sequence of callbacks, in order.
    pub open spec fn run(self, calls: Seq<Call>) -> Decoding
        decreases calls.len(),
    {
        if calls.len() == 0 {
            self
        } else {
            self.run(calls.drop_last()).step(calls.last())
        }
    }
}

/// The events that a sequence of callbacks decodes to when nothing was
/// pending before it and the run is flushed after it.
pub open spec fn decoded(calls: Seq<Call>) -> Seq<Event> {
    Decoding::empty().run(calls).flushed().events
}

/// Collects the classifier's callbacks into terminal events.
pub struct Printer {
    chars: String,
    events: Vec<TerminalEvent>,
}

impl View for Printer {
    type V = Decoding;

    closed spec fn view(&self) -> Decoding {
        Decoding { pending: self.chars@, events: self.events.deep_view() }
    }
}

/// The byte strings that a list of slices holds.
pub open spec fn byte_strings(params: Seq<&[u8]>) -> Seq<Seq<u8>> {
    Seq::new(params.len(), |i: int| params[i]@)
}

/// Copies a list of byte strings.
fn copy_byte_strings(params: &[&[u8]]) -> (out: Vec<Vec<u8>>)
    ensures
        strings_view(out@) == byte_strings(params@),
{
    let mut out: Vec<Vec<u8>> = Vec::new();
    let mut i: usize = 0;
    while i < params.len()
        invariant
            i <= params.len(),
            out@.len() == i,
            strings_view(out@) == byte_strings(params@.take(i as int)),
        decreases params.len() - i,
    {
        let ghost before = out@;
        out.push(slice_to_vec(params[i]));
        proof {
            assert forall|k: int| 0 <= k < out@.len() implies strings_view(out@)[k]
                == byte_strings(params@.take(i + 1))[k] by {
                if k < i {
                    assert(strings_view(before)[k] == byte_strings(params@.take(i as int))[k]);
                }
            }
            assert(strings_view(out@) =~= byte_strings(params@.take(i + 1)));
        }
        i = i + 1;
    }
    proof {
        assert(params@.take(params.len() as int) =~= params@);
    }
    out
}

/// The first byte of the slice, if there is one.
fn first_byte(intermediates: &[u8]) -> (first: Option<u8>)
    ensures
        first == first_intermediate(intermediates@),
{
    if intermediates.len() > 0 {
        Some(intermediates[0])
    } else {
        None
    }
}

impl Printer {
    /// A printer with nothing pending and nothing decoded.
    pub fn new() -> (printer: Printer)
        ensures
            printer@ == Decoding::empty(),
            printer.well_formed(),
    {
        let printer = Printer { chars: String::new(), events: Vec::new() };
        proof {
            assert(printer.events.deep_view() =~= Seq::<Event>::empty());
        }
        printer
    }

    /// Every event decoded so far is well formed.
    pub open spec fn well_formed(&self) -> bool {
        all_well_formed(self@.events)
    }

    /// Adds one character to the pending run.
    pub fn append(&mut self, c: char)
        ensures
            final(self)@ == old(self)@.step(Call::Print(c)),
            old(self).well_formed() ==> final(self).well_formed(),
    {
        self.chars.push(c);
    }

    /// Emits the pending run, if there is one, as a single `Print` event.
    pub fn flush(&mut self)
        ensures
            final(self)@ == old(self)@.flushed(),
            old(self).well_formed() ==> final(self).well_formed(),
    {
        if !self.chars.as_str().is_empty() {
            let mut text = String::new();
            std::mem::swap(&mut text, &mut self.chars);
            let ghost before = self.events.deep_view();
            self.events.push(TerminalEvent::Print { text });
            proof {
                assert(self.events.deep_view() =~= before.push(Event::Print { text: text@ }));
            }
        } else {
            proof {
                assert(self.chars@ =~= Seq::<char>::empty());
            }
        }
    }

    /// Flushes the pending run and then records `event`.
    fn emit(&mut self, event: TerminalEvent)
        requires
            !(event@ is Print),
        ensures
            final(self)@ == (Decoding {
                pending: Seq::empty(),
                events: old(self)@.flushed().events.push(event@),
            }),
            old(self).well_formed() ==> final(self).well_formed(),
    {
        self.flush();
        let ghost before = self.events.deep_view();
        self.events.push(event);
        proof {
            assert(self.events.deep_view() =~= before.push(event@));
            assert(self.chars@ =~= Seq::<char>::empty());
        }
    }

    /// Flushes the pending run and hands out the decoded events.
    pub fn finish(self) -> (events: Vec<TerminalEvent>)
        ensures
            events.deep_view() == self@.flushed().events,
            self.well_formed() ==> all_well_formed(events.deep_view()),
    {
        let mut printer = self;
        printer.flush();
        printer.events
    }
}

impl vte::Perform for Printer {
    /// A printable character extends the pending run.
    fn print(&mut self, c: char)
        ensures
            final(self)@ == old(self)@.step(Call::Print(c)),
            old(self).well_formed() ==> final(self).well_formed(),
    {
        self.append(c);
    }

    /// A control byte becomes a `Control` event.
    fn execute(&mut self, byte: u8)
        ensures
            final(self)@ == old(self)@.step(Call::Execute(byte)),
            old(self).well_formed() ==> final(self).well_formed(),
    {
        self.emit(TerminalEvent::Control { byte });
    }

    /// The start of a DCS sequence becomes a `DcsHook` event.
    fn hook(&mut self, params: &[i64], intermediates: &[u8], ignore: bool, action: char)
        ensures
            final(self)@ == old(self)@.step(
                Call::Hook { params: params@, intermediates: intermediates@, ignore, action },
            ),
            old(self).well_formed() ==> final(self).well_formed(),
    {
        let intermediate = first_byte(intermediates);
        self.emit(TerminalEvent::DcsHook { intermediate, params: slice_to_vec(params) });
    }

    /// The payload of a DCS sequence is dropped.
    fn put(&mut self, byte: u8)
        ensures
            final(self)@ == old(self)@.step(Call::Put(byte)),
            old(self).well_formed() ==> final(self).well_formed(),
    {
    }

    /// The end of a DCS sequence leaves no trace.
    fn unhook(&mut self)
        ensures
            final(self)@ == old(self)@.step(Call::Unhook),
            old(self).well_formed() ==> final(self).well_formed(),
    {
    }

    /// An OSC sequence becomes an `OscSequence` event with its parameters
    /// in the order received.
    fn osc_dispatch(&mut self, params: &[&[u8]], bell_terminated: bool)
        ensures
            final(self)@ == old(self)@.step(
                Call::OscDispatch { params: byte_strings(params@), bell_terminated },
            ),
            old(self).well_formed() ==> final(self).well_formed(),
    {
        self.emit(TerminalEvent::OscSequence { params: copy_byte_strings(params) });
    }

    /// A CSI sequence becomes a `CsiSequence` event with its parameters in
    /// the order received.
    fn csi_dispatch(&mut self, params: &[i64], intermediates: &[u8], ignore: bool, action: char)
        ensures
            final(self)@ == old(self)@.step(
                Call::CsiDispatch { params: params@, intermediates: intermediates@, ignore, action },
            ),
            old(self).well_formed() ==> final(self).well_formed(),
    {
        let intermediate = first_byte(intermediates);
        self.emit(
            TerminalEvent::CsiSequence {
                intermediate,
                params: slice_to_vec(params),
                final_char: action,
            },
        );
    }

    /// An ESC sequence becomes an `Escape` event.
    fn esc_dispatch(&mut self, intermediates: &[u8], ignore: bool, byte: u8)
        ensures
            final(self)@ == old(self)@.step(
                Call::EscDispatch { intermediates: intermediates@, ignore, byte },
            ),
            old(self).well_formed() ==> final(self).well_formed(),
    {
        let intermediate = first_byte(intermediates);
        self.emit(TerminalEvent::Escape { intermediate, final_byte: byte });
    }
}

/// Running two sequences of callbacks one after the other is running their
/// concatenation.
pub proof fn lemma_run_concat(start: Decoding, first: Seq<Call>, second: Seq<Call>)
    ensures
        start.run(first).run(second) == start.run(first + second),
    decreases second.len(),
{
    if second.len() == 0 {
        assert(first + second =~= first);
    } else {
        lemma_run_concat(start, first, second.drop_last());
        assert((first + second).drop_last() =~= first + second.drop_last());
        assert((first + second).last() == second.last());
    }
}

/// Callbacks never record an empty `Print` event.
pub proof fn lemma_run_well_formed(start: Decoding, calls: Seq<Call>)
    requires
        all_well_formed(start.events),
    ensures
        all_well_formed(start.run(calls).events),
        all_well_formed(start.run(calls).flushed().events),
    decreases calls.len(),
{
    if calls.len() > 0 {
        lemma_run_well_formed(start, calls.drop_last());
    }
}

} // verus!
