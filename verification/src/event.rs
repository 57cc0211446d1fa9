//! The decoded terminal events and their mathematical values.

use vstd::prelude::*;

verus! {

/// The mathematical value of a decoded terminal event.
///
/// Parameters keep the order in which they were parsed; at most one
/// intermediate byte is modelled.
#[allow(inconsistent_fields)]
pub enum Event {
    /// A run of printable characters.
    Print { text: Seq<char> },
    /// A single control byte.
    Control { byte: u8 },
    /// An ESC sequence: optional intermediate byte, then the final byte.
    Escape { intermediate: Option<u8>, final_byte: u8 },
    /// A CSI sequence with its numeric parameters and final character.
    Csi { intermediate: Option<u8>, params: Seq<i64>, final_char: char },
    /// An OSC sequence; every parameter is a raw byte string.
    Osc { params: Seq<Seq<u8>> },
    /// The hook of a DCS sequence. The payload that follows is not kept.
    Dcs { intermediate: Option<u8>, params: Seq<i64> },
}

impl Event {
    /// A `Print` event always carries at least one character.
    pub open spec fn well_formed(self) -> bool {
        self matches Event::Print { text } ==> text.len() > 0
    }
}

/// Every event of the sequence is well formed.
pub open spec fn all_well_formed(events: Seq<Event>) -> bool {
    forall|i: int| 0 <= i < events.len() ==> (#[trigger] events[i]).well_formed()
}

/// The byte strings that a list of owned byte strings holds.
pub open spec fn strings_view(params: Seq<Vec<u8>>) -> Seq<Seq<u8>> {
    Seq::new(params.len(), |i: int| params[i]@)
}

/// A decoded terminal event.
#[allow(inconsistent_fields)]
#[derive(Clone, Debug, PartialEq, Eq)]
pub enum TerminalEvent {
    /// A run of printable characters.
    Print { text: String },
    /// A single control byte.
    Control { byte: u8 },
    /// An ESC sequence: optional intermediate byte, then the final byte.
    Escape { intermediate: Option<u8>, final_byte: u8 },
    /// A CSI sequence with its numeric parameters and final character.
    CsiSequence { intermediate: Option<u8>, params: Vec<i64>, final_char: char },
    /// An OSC sequence; every parameter is a raw byte string.
    OscSequence { params: Vec<Vec<u8>> },
    /// The hook of a DCS sequence.
    DcsHook { intermediate: Option<u8>, params: Vec<i64> },
}

impl View for TerminalEvent {
    type V = Event;

    open spec fn view(&self) -> Event {
        match *self {
            TerminalEvent::Print { text } => Event::Print { text: text@ },
            TerminalEvent::Control { byte } => Event::Control { byte },
            TerminalEvent::Escape { intermediate, final_byte } => Event::Escape {
                intermediate,
                final_byte,
            },
            TerminalEvent::CsiSequence { intermediate, params, final_char } => Event::Csi {
                intermediate,
                params: params@,
                final_char,
            },
            TerminalEvent::OscSequence { params } => Event::Osc { params: strings_view(params@) },
            TerminalEvent::DcsHook { intermediate, params } => Event::Dcs {
                intermediate,
                params: params@,
            },
        }
    }
}

impl DeepView for TerminalEvent {
    type V = Event;

    open spec fn deep_view(&self) -> Event {
        self.view()
    }
}

} // verus!
