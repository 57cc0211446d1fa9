//! The sequence classifier: the state machine of `vte` that tells print
//! text, control bytes and escape sequences apart, and the decoding of
//! bytes that rests on it.

use vstd::prelude::*;

use crate::event::{all_well_formed, Event, TerminalEvent};
use crate::printer::{decoded, lemma_run_concat, lemma_run_well_formed, Call, Printer};

verus! {

/// `vte::Parser`, the state machine of the classifier. Nothing inside it is
/// visible here.
#[verifier::external_type_specification]
#[verifier::external_body]
pub struct ExClassifier(vte::Parser);

/// The bytes that a classifier has taken since it was created.
pub uninterp spec fn consumed(parser: vte::Parser) -> Seq<u8>;

/// The callbacks that a classifier makes on `byte` after it has taken
/// `history`. The state machine is deterministic, so they depend on these
/// two alone.
pub uninterp spec fn dispatched(history: Seq<u8>, byte: u8) -> Seq<Call>;

/// `vte::Parser::new` gives a classifier in its ground state, which has
/// taken no byte yet.
pub assume_specification[ vte::Parser::new ]() -> (parser: vte::Parser)
    ensures
        consumed(parser) == Seq::<u8>::empty(),
;

/// Hands one byte to `vte::Parser::advance`, with the printer as the
/// receiver of its callbacks.
///
/// The classifier calls nothing but the printer's callbacks, each of which
/// is verified to take the printer's state one `step` further; so the
/// printer ends in the state that `run` gives for the callbacks made.
#[verifier::external_body]
pub(crate) fn advance(parser: &mut vte::Parser, printer: &mut Printer, byte: u8)
    ensures
        consumed(*final(parser)) == consumed(*old(parser)).push(byte),
        final(printer)@ == old(printer)@.run(dispatched(consumed(*old(parser)), byte)),
{
    parser.advance(printer, byte);
}

/// The callbacks that a classifier makes on `bytes`, one after the other,
/// after it has taken `history`.
pub open spec fn classified(history: Seq<u8>, bytes: Seq<u8>) -> Seq<Call>
    decreases bytes.len(),
{
    if bytes.len() == 0 {
        Seq::empty()
    } else {
        classified(history, bytes.drop_last()) + dispatched(
            history + bytes.drop_last(),
            bytes.last(),
        )
    }
}

/// Pushes every byte through the classifier into the printer.
pub fn classify(parser: &mut vte::Parser, printer: &mut Printer, bytes: &[u8])
    ensures
        consumed(*final(parser)) == consumed(*old(parser)) + bytes@,
        final(printer)@ == old(printer)@.run(classified(consumed(*old(parser)), bytes@)),
        old(printer).well_formed() ==> final(printer).well_formed(),
{
    let ghost history = consumed(*parser);
    let mut i: usize = 0;
    proof {
        assert(history + bytes@.take(0) =~= history);
    }
    while i < bytes.len()
        invariant
            i <= bytes.len(),
            consumed(*parser) == history + bytes@.take(i as int),
            printer@ == old(printer)@.run(classified(history, bytes@.take(i as int))),
        decreases bytes.len() - i,
    {
        advance(parser, printer, bytes[i]);
        proof {
            let done = bytes@.take(i as int);
            let next = bytes@.take(i + 1);
            assert(next.drop_last() =~= done);
            assert(next.last() == bytes@[i as int]);
            assert(history + next =~= (history + done).push(bytes@[i as int]));
            lemma_run_concat(
                old(printer)@,
                classified(history, done),
                dispatched(history + done, bytes@[i as int]),
            );
        }
        i = i + 1;
    }
    proof {
        assert(bytes@.take(bytes.len() as int) =~= bytes@);
        if old(printer).well_formed() {
            lemma_run_well_formed(old(printer)@, classified(history, bytes@));
        }
    }
}

/// The events that `bytes` decode to, from a classifier that has taken
/// `history`, when nothing is pending before and the run is flushed after.
pub open spec fn decoded_events(history: Seq<u8>, bytes: Seq<u8>) -> Seq<Event> {
    decoded(classified(history, bytes))
}

/// Decodes `bytes` with the classifier and flushes the pending run.
pub fn decode_with(parser: &mut vte::Parser, bytes: &[u8]) -> (events: Vec<TerminalEvent>)
    ensures
        consumed(*final(parser)) == consumed(*old(parser)) + bytes@,
        events.deep_view() == decoded_events(consumed(*old(parser)), bytes@),
        all_well_formed(events.deep_view()),
{
    let mut printer = Printer::new();
    classify(parser, &mut printer, bytes);
    printer.finish()
}

/// Decodes `bytes` from the ground state into terminal events.
pub fn decode(bytes: &[u8]) -> (events: Vec<TerminalEvent>)
    ensures
        events.deep_view() == decoded_events(Seq::empty(), bytes@),
        all_well_formed(events.deep_view()),
{
    let mut parser = vte::Parser::new();
    decode_with(&mut parser, bytes)
}

} // verus!
