//! The one-line, readable form of each terminal event.

use vstd::prelude::*;
use vstd::string::*;

use crate::decimal::{decimal_text, digits, latin1, push_decimal_text, push_digits_text};
use crate::event::{strings_view, Event, TerminalEvent};
use crate::join::{joined, lemma_joined_next};
use crate::text::{from_utf8_lossy, lossy_text};
use crate::width::{display_width, text_width};

verus! {

/// The letter that names a control byte: the character whose code is the
/// byte plus 0x40, so that 0x03 gives `C`. The sum is taken modulo 256.
pub open spec fn ctrl_letter(byte: u8) -> char {
    (((byte as int) + 0x40) % 256) as u8 as char
}

/// Each number in decimal notation.
pub open spec fn param_texts(params: Seq<i64>) -> Seq<Seq<char>> {
    Seq::new(params.len(), |i: int| decimal_text(params[i] as int))
}

/// The numbers in decimal notation, joined with `" ; "`.
pub open spec fn param_text(params: Seq<i64>) -> Seq<char> {
    joined(param_texts(params), " ; "@)
}

/// A text between double quotes.
pub open spec fn quoted_text(text: Seq<char>) -> Seq<char> {
    "\""@ + text + "\""@
}

/// A byte string read as text, between double quotes.
pub open spec fn quoted(bytes: Seq<u8>) -> Seq<char> {
    quoted_text(lossy_text(bytes))
}

/// Each byte string read as text, between double quotes.
pub open spec fn osc_param_texts(params: Seq<Seq<u8>>) -> Seq<Seq<char>> {
    Seq::new(params.len(), |i: int| quoted(params[i]))
}

/// The byte strings as quoted text, joined with `" ; "`.
pub open spec fn osc_param_text(params: Seq<Seq<u8>>) -> Seq<char> {
    joined(osc_param_texts(params), " ; "@)
}

/// The intermediate byte as a character followed by a space, or nothing.
pub open spec fn intermediate_text(intermediate: Option<u8>) -> Seq<char> {
    match intermediate {
        Some(i) => seq![i as char, ' '],
        None => Seq::empty(),
    }
}

/// The line of text that stands for an event in the trace. With
/// `with_width` a `Print` event also reports its display width.
pub open spec fn rendered(event: Event, with_width: bool) -> Seq<char> {
    match event {
        Event::Print { text } => if with_width {
            "TEXT("@ + latin1(digits(text_width(text))) + ") "@ + quoted_text(text)
        } else {
            "TEXT "@ + quoted_text(text)
        },
        Event::Control { byte } => "CTRL "@ + seq![ctrl_letter(byte)],
        Event::Escape { intermediate, final_byte } => "ESC "@ + intermediate_text(intermediate)
            + seq![final_byte as char],
        Event::Csi { intermediate, params, final_char } => "CSI "@ + intermediate_text(
            intermediate,
        ) + param_text(params) + " "@ + seq![final_char],
        Event::Osc { params } => "OSC "@ + osc_param_text(params),
        Event::Dcs { intermediate, params } => "DCS "@ + intermediate_text(intermediate)
            + param_text(params),
    }
}

/// Writes the numbers in decimal notation, joined with `" ; "`.
pub fn param_str(params: &[i64]) -> (line: String)
    ensures
        line@ == param_text(params@),
{
    let ghost parts = param_texts(params@);
    let mut line = String::new();
    let mut i: usize = 0;
    while i < params.len()
        invariant
            i <= params.len(),
            parts == param_texts(params@),
            line@ == joined(parts.take(i as int), " ; "@),
        decreases params.len() - i,
    {
        let ghost before = line@;
        if i > 0 {
            line.append(" ; ");
        }
        push_decimal_text(&mut line, params[i]);
        proof {
            lemma_joined_next(parts, " ; "@, i as int);
            if i == 0 {
                assert(before =~= Seq::<char>::empty());
                assert(line@ =~= parts[0]);
            }
        }
        i = i + 1;
    }
    proof {
        assert(parts.take(params.len() as int) =~= parts);
    }
    line
}

/// Puts a text between double quotes.
pub fn quote(text: &str) -> (out: String)
    ensures
        out@ == quoted_text(text@),
{
    let mut out = String::from_str("\"");
    out.append(text);
    out.append("\"");
    out
}

/// Writes the byte strings as quoted text, joined with `" ; "`.
pub fn osc_param_str(params: &[Vec<u8>]) -> (line: String)
    ensures
        line@ == osc_param_text(strings_view(params@)),
{
    let ghost parts = osc_param_texts(strings_view(params@));
    let mut line = String::new();
    let mut i: usize = 0;
    while i < params.len()
        invariant
            i <= params.len(),
            parts == osc_param_texts(strings_view(params@)),
            line@ == joined(parts.take(i as int), " ; "@),
        decreases params.len() - i,
    {
        let ghost before = line@;
        if i > 0 {
            line.append(" ; ");
        }
        let text = from_utf8_lossy(params[i].as_slice());
        line.append(quote(text.as_str()).as_str());
        proof {
            lemma_joined_next(parts, " ; "@, i as int);
            assert(parts[i as int] == quoted(params@[i as int]@));
            if i == 0 {
                assert(before =~= Seq::<char>::empty());
                assert(line@ =~= parts[0]);
            } else {
                assert(line@ =~= before + " ; "@ + parts[i as int]);
            }
        }
        i = i + 1;
    }
    proof {
        assert(parts.take(params.len() as int) =~= parts);
    }
    line
}

/// Appends the intermediate byte and a space, if there is an intermediate.
fn push_intermediate(line: &mut String, intermediate: Option<u8>)
    ensures
        final(line)@ == old(line)@ + intermediate_text(intermediate),
{
    match intermediate {
        Some(i) => {
            line.push(i as char);
            line.push(' ');
            proof {
                assert(final(line)@ =~= old(line)@ + intermediate_text(intermediate));
            }
        },
        None => {
            proof {
                assert(final(line)@ =~= old(line)@ + intermediate_text(intermediate));
            }
        },
    }
}

/// Renders one event as a line of text. Rendering never fails.
pub fn render(event: &TerminalEvent, with_width: bool) -> (line: String)
    ensures
        line@ == rendered(event@, with_width),
{
    match event {
        TerminalEvent::Print { text } => {
            if with_width {
                let mut line = String::from_str("TEXT(");
                push_digits_text(&mut line, display_width(text.as_str()));
                line.append(") ");
                line.append(quote(text.as_str()).as_str());
                line
            } else {
                let mut line = String::from_str("TEXT ");
                line.append(quote(text.as_str()).as_str());
                line
            }
        },
        TerminalEvent::Control { byte } => {
            let mut line = String::from_str("CTRL ");
            line.push(byte.wrapping_add(0x40) as char);
            line
        },
        TerminalEvent::Escape { intermediate, final_byte } => {
            let mut line = String::from_str("ESC ");
            push_intermediate(&mut line, *intermediate);
            line.push(*final_byte as char);
            line
        },
        TerminalEvent::CsiSequence { intermediate, params, final_char } => {
            let mut line = String::from_str("CSI ");
            push_intermediate(&mut line, *intermediate);
            let numbers = param_str(params.as_slice());
            line.append(numbers.as_str());
            line.append(" ");
            line.push(*final_char);
            line
        },
        TerminalEvent::OscSequence { params } => {
            let mut line = String::from_str("OSC ");
            let strings = osc_param_str(params.as_slice());
            line.append(strings.as_str());
            line
        },
        TerminalEvent::DcsHook { intermediate, params } => {
            let mut line = String::from_str("DCS ");
            push_intermediate(&mut line, *intermediate);
            let numbers = param_str(params.as_slice());
            line.append(numbers.as_str());
            line
        },
    }
}

} // verus!
