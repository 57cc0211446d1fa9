//! The canonical bytes of each terminal event.

use vstd::prelude::*;
use vstd::slice::slice_to_vec;
use vstd::string::*;
use vstd::utf8::encode_utf8;

use crate::decimal::{decimal, push_decimal};
use crate::event::{strings_view, Event, TerminalEvent};
use crate::join::{joined, lemma_joined_next};

verus! {

/// The escape byte that introduces every sequence.
pub const ESC: u8 = 0x1b;

/// The bell byte that terminates a re-encoded OSC sequence.
pub const BEL: u8 = 0x07;

/// Each number in decimal notation.
pub open spec fn param_numbers(params: Seq<i64>) -> Seq<Seq<u8>> {
    Seq::new(params.len(), |i: int| decimal(params[i] as int))
}

/// The numbers in decimal notation, joined with `;`.
pub open spec fn param_encoding(params: Seq<i64>) -> Seq<u8> {
    joined(param_numbers(params), seq![0x3bu8])
}

/// The byte strings as they stand, joined with `;`.
pub open spec fn osc_param_encoding(params: Seq<Seq<u8>>) -> Seq<u8> {
    joined(params, seq![0x3bu8])
}

/// The intermediate byte, or nothing.
pub open spec fn intermediate_bytes(intermediate: Option<u8>) -> Seq<u8> {
    match intermediate {
        Some(i) => seq![i],
        None => Seq::empty(),
    }
}

/// The byte that a final character is written as: its code modulo 256.
pub open spec fn final_byte_of(c: char) -> u8 {
    ((c as u32) % 256) as u8
}

/// The bytes that an event is re-encoded to. The hook of a DCS sequence
/// is not re-encoded, and an OSC sequence always ends with BEL.
pub open spec fn encoded(event: Event) -> Seq<u8> {
    match event {
        Event::Print { text } => encode_utf8(text),
        Event::Control { byte } => seq![byte],
        Event::Escape { intermediate, final_byte } => seq![ESC] + intermediate_bytes(intermediate)
            + seq![final_byte],
        Event::Csi { intermediate, params, final_char } => seq![ESC, 0x5bu8] + intermediate_bytes(
            intermediate,
        ) + param_encoding(params) + seq![final_byte_of(final_char)],
        Event::Osc { params } => seq![ESC, 0x5du8] + osc_param_encoding(params) + seq![BEL],
        Event::Dcs { .. } => Seq::empty(),
    }
}

/// Writes the numbers in decimal notation, joined with `;`.
pub fn param_bytes(params: &[i64]) -> (bytes: Vec<u8>)
    ensures
        bytes@ == param_encoding(params@),
{
    let ghost parts = param_numbers(params@);
    let mut bytes: Vec<u8> = Vec::new();
    let mut i: usize = 0;
    while i < params.len()
        invariant
            i <= params.len(),
            parts == param_numbers(params@),
            bytes@ == joined(parts.take(i as int), seq![0x3bu8]),
        decreases params.len() - i,
    {
        let ghost before = bytes@;
        if i > 0 {
            bytes.push(0x3bu8);
        }
        push_decimal(&mut bytes, params[i]);
        proof {
            lemma_joined_next(parts, seq![0x3bu8], i as int);
            if i == 0 {
                assert(before =~= Seq::<u8>::empty());
                assert(bytes@ =~= parts[0]);
            } else {
                assert(bytes@ =~= before + seq![0x3bu8] + parts[i as int]);
            }
        }
        i = i + 1;
    }
    proof {
        assert(parts.take(params.len() as int) =~= parts);
    }
    bytes
}

/// Appends a copy of `more` to `out`.
fn push_bytes(out: &mut Vec<u8>, more: &[u8])
    ensures
        final(out)@ == old(out)@ + more@,
{
    let mut i: usize = 0;
    while i < more.len()
        invariant
            i <= more.len(),
            out@ == old(out)@ + more@.take(i as int),
        decreases more.len() - i,
    {
        out.push(more[i]);
        proof {
            assert(out@ =~= old(out)@ + more@.take(i + 1));
        }
        i = i + 1;
    }
    proof {
        assert(more@.take(more.len() as int) =~= more@);
    }
}

/// Writes the byte strings as they stand, joined with `;`.
pub fn osc_param_bytes(params: &[Vec<u8>]) -> (bytes: Vec<u8>)
    ensures
        bytes@ == osc_param_encoding(strings_view(params@)),
{
    let ghost parts = strings_view(params@);
    let mut bytes: Vec<u8> = Vec::new();
    let mut i: usize = 0;
    while i < params.len()
        invariant
            i <= params.len(),
            parts == strings_view(params@),
            bytes@ == joined(parts.take(i as int), seq![0x3bu8]),
        decreases params.len() - i,
    {
        let ghost before = bytes@;
        if i > 0 {
            bytes.push(0x3bu8);
        }
        push_bytes(&mut bytes, params[i].as_slice());
        proof {
            lemma_joined_next(parts, seq![0x3bu8], i as int);
            if i == 0 {
                assert(before =~= Seq::<u8>::empty());
                assert(bytes@ =~= parts[0]);
            } else {
                assert(bytes@ =~= before + seq![0x3bu8] + parts[i as int]);
            }
        }
        i = i + 1;
    }
    proof {
        assert(parts.take(params.len() as int) =~= parts);
    }
    bytes
}

/// Appends the intermediate byte, if there is one.
fn push_intermediate(out: &mut Vec<u8>, intermediate: Option<u8>)
    ensures
        final(out)@ == old(out)@ + intermediate_bytes(intermediate),
{
    match intermediate {
        Some(i) => {
            out.push(i);
        },
        None => {},
    }
    proof {
        assert(final(out)@ =~= old(out)@ + intermediate_bytes(intermediate));
    }
}

/// Re-encodes one event as bytes.
pub fn encode(event: &TerminalEvent) -> (bytes: Vec<u8>)
    ensures
        bytes@ == encoded(event@),
{
    match event {
        TerminalEvent::Print { text } => slice_to_vec(text.as_str().as_bytes()),
        TerminalEvent::Control { byte } => {
            let mut bytes: Vec<u8> = Vec::new();
            bytes.push(*byte);
            proof {
                assert(bytes@ =~= encoded(event@));
            }
            bytes
        },
        TerminalEvent::Escape { intermediate, final_byte } => {
            let mut bytes: Vec<u8> = Vec::new();
            bytes.push(ESC);
            push_intermediate(&mut bytes, *intermediate);
            bytes.push(*final_byte);
            proof {
                assert(bytes@ =~= encoded(event@));
            }
            bytes
        },
        TerminalEvent::CsiSequence { intermediate, params, final_char } => {
            let mut bytes: Vec<u8> = Vec::new();
            bytes.push(ESC);
            bytes.push(0x5bu8);
            push_intermediate(&mut bytes, *intermediate);
            let numbers = param_bytes(params.as_slice());
            push_bytes(&mut bytes, numbers.as_slice());
            bytes.push(((*final_char as u32) % 256) as u8);
            proof {
                assert(bytes@ =~= encoded(event@));
            }
            bytes
        },
        TerminalEvent::OscSequence { params } => {
            let mut bytes: Vec<u8> = Vec::new();
            bytes.push(ESC);
            bytes.push(0x5du8);
            let strings = osc_param_bytes(params.as_slice());
            push_bytes(&mut bytes, strings.as_slice());
            bytes.push(BEL);
            proof {
                assert(bytes@ =~= encoded(event@));
            }
            bytes
        },
        TerminalEvent::DcsHook { .. } => {
            let bytes: Vec<u8> = Vec::new();
            proof {
                assert(bytes@ =~= encoded(event@));
            }
            bytes
        },
    }
}

} // verus!
