//! Laws of decoding, stated over the callbacks of the classifier.

use vstd::prelude::*;
use vstd::utf8::{decode_utf8, encode_utf8_decode_utf8};

use crate::classifier::{classified, decoded_events};
use crate::decimal::{digit, digits};
use crate::driver::{decode_frames, frames_in, lemma_frames_append, rest, Driver};
use crate::encode::{encoded, intermediate_bytes};
use crate::event::Event;
use crate::printer::{decoded, event_of, first_intermediate, lemma_run_concat, Call, Decoding};
use crate::recording::{
    fits, frame_len, has_frame, head_frame, le32, le32_bytes, serialized, FrameView,
    MICROS_PER_SEC,
};
use crate::reencode::{event_frames, recording_bytes};
use crate::render::{intermediate_text, param_text, rendered};
use crate::trace::event_lines;

verus! {

/// Every callback of the sequence is a `Print`.
pub open spec fn all_print(calls: Seq<Call>) -> bool {
    forall|i: int| 0 <= i < calls.len() ==> (#[trigger] calls[i]) is Print
}

/// The characters that the `Print` callbacks carry, in order.
pub open spec fn printed(calls: Seq<Call>) -> Seq<char> {
    Seq::new(calls.len(), |i: int| calls[i]->Print_0)
}

/// `Print` callbacks alone only extend the pending run.
proof fn lemma_prints_accumulate(start: Decoding, calls: Seq<Call>)
    requires
        all_print(calls),
    ensures
        start.run(calls) == (Decoding {
            pending: start.pending + printed(calls),
            events: start.events,
        }),
    decreases calls.len(),
{
    if calls.len() == 0 {
        assert(start.pending + printed(calls) =~= start.pending);
    } else {
        let front = calls.drop_last();
        lemma_prints_accumulate(start, front);
        assert(calls.last() is Print);
        assert(start.pending + printed(calls) =~= (start.pending + printed(front)).push(
            calls.last()->Print_0,
        ));
    }
}

/// Input that the classifier reports as printable characters only, and at
/// least one, decodes to exactly one `Print` event, which holds all of the
/// characters in order.
pub proof fn lemma_printable_only(calls: Seq<Call>)
    requires
        calls.len() > 0,
        all_print(calls),
    ensures
        decoded(calls) == seq![Event::Print { text: printed(calls) }],
{
    lemma_prints_accumulate(Decoding::empty(), calls);
    assert(Decoding::empty().pending + printed(calls) =~= printed(calls));
    assert(Decoding::empty().events.push(Event::Print { text: printed(calls) }) =~= seq![
        Event::Print { text: printed(calls) },
    ]);
}

/// The classifier makes the same callbacks on bytes handed over in two
/// parts as on the same bytes handed over at once.
pub proof fn lemma_classified_concat(history: Seq<u8>, first: Seq<u8>, second: Seq<u8>)
    ensures
        classified(history, first + second) == classified(history, first) + classified(
            history + first,
            second,
        ),
    decreases second.len(),
{
    if second.len() == 0 {
        assert(first + second =~= first);
        assert(classified(history, first) + classified(history + first, second) =~= classified(
            history,
            first,
        ));
    } else {
        let whole = first + second;
        lemma_classified_concat(history, first, second.drop_last());
        assert(whole.drop_last() =~= first + second.drop_last());
        assert(whole.last() == second.last());
        assert(history + whole.drop_last() =~= (history + first) + second.drop_last());
        assert(classified(history, whole) =~= classified(history, first) + classified(
            history + first,
            second,
        ));
    }
}

/// Two characters that arrive in separate parts of the input end up in the
/// same `Print` event as when they arrive together: cutting the input does
/// not move the boundaries of events.
pub proof fn lemma_split_print(start: Decoding, a: char, b: char)
    ensures
        start.run(seq![Call::Print(a)]).run(seq![Call::Print(b)]) == start.run(
            seq![Call::Print(a), Call::Print(b)],
        ),
        start.run(seq![Call::Print(a), Call::Print(b)]).pending == start.pending.push(a).push(b),
        start.run(seq![Call::Print(a), Call::Print(b)]).events == start.events,
{
    let one = seq![Call::Print(a)];
    let two = seq![Call::Print(b)];
    let both = seq![Call::Print(a), Call::Print(b)];
    lemma_run_concat(start, one, two);
    assert(one + two =~= both);
    lemma_prints_accumulate(start, both);
    assert(start.pending + printed(both) =~= start.pending.push(a).push(b));
}

/// Two drivers that were fed the same bytes have decoded the same frames,
/// however the bytes were cut into chunks.
pub proof fn lemma_chunking(one: Driver, other: Driver)
    requires
        one.well_formed(),
        other.well_formed(),
        one.stream() == other.stream(),
    ensures
        one.decoded() == other.decoded(),
        one.decoded() == decode_frames(frames_in(one.stream())),
{
    one.lemma_decoded();
    other.lemma_decoded();
}

/// The parameters of a CSI, DCS or OSC callback reach the event unchanged
/// and in the order received.
pub proof fn lemma_parameters_kept(
    numbers: Seq<i64>,
    strings: Seq<Seq<u8>>,
    intermediates: Seq<u8>,
    ignore: bool,
    action: char,
)
    ensures
        event_of(Call::CsiDispatch { params: numbers, intermediates, ignore, action })
            matches Some(Event::Csi { params, .. }) && params == numbers,
        event_of(Call::Hook { params: numbers, intermediates, ignore, action })
            matches Some(Event::Dcs { params, .. }) && params == numbers,
        event_of(Call::OscDispatch { params: strings, bell_terminated: ignore })
            matches Some(Event::Osc { params }) && params == strings,
{
}

/// A frame with an empty payload decodes to no event, and so adds no line
/// of text and no frame.
pub proof fn lemma_empty_payload(history: Seq<u8>, micros: u64, with_width: bool)
    ensures
        decoded_events(history, Seq::empty()) == Seq::<Event>::empty(),
        event_lines(decoded_events(history, Seq::empty()), with_width) == Seq::<
            Seq<char>,
        >::empty(),
        event_frames(micros, decoded_events(history, Seq::empty())) == Seq::<FrameView>::empty(),
{
    assert(event_lines(Seq::<Event>::empty(), with_width) =~= Seq::<Seq<char>>::empty());
}

/// Every callback of the sequence is a `Put`.
pub open spec fn all_put(calls: Seq<Call>) -> bool {
    forall|i: int| 0 <= i < calls.len() ==> (#[trigger] calls[i]) is Put
}

/// `Put` callbacks change nothing.
proof fn lemma_puts_ignored(start: Decoding, calls: Seq<Call>)
    requires
        all_put(calls),
    ensures
        start.run(calls) == start,
    decreases calls.len(),
{
    if calls.len() > 0 {
        lemma_puts_ignored(start, calls.drop_last());
        assert(calls.last() is Put);
    }
}

/// A DCS sequence alone, that is a hook, any payload and the unhook,
/// decodes to the one `Dcs` event of the hook. It is rendered as one `DCS`
/// line and gives no frame when re-encoded.
pub proof fn lemma_dcs_only(
    params: Seq<i64>,
    intermediates: Seq<u8>,
    ignore: bool,
    action: char,
    payload: Seq<Call>,
    micros: u64,
    with_width: bool,
)
    requires
        all_put(payload),
    ensures
        ({
            let hook = Call::Hook { params, intermediates, ignore, action };
            let calls = seq![hook] + payload + seq![Call::Unhook];
            let event = Event::Dcs { intermediate: first_intermediate(intermediates), params };
            &&& decoded(calls) == seq![event]
            &&& event_lines(decoded(calls), with_width) == seq![
                "DCS "@ + intermediate_text(first_intermediate(intermediates)) + param_text(params),
            ]
            &&& event_frames(micros, decoded(calls)) == Seq::<FrameView>::empty()
        }),
{
    let hook = Call::Hook { params, intermediates, ignore, action };
    let calls = seq![hook] + payload + seq![Call::Unhook];
    let event = Event::Dcs { intermediate: first_intermediate(intermediates), params };
    let start = Decoding::empty();
    let hooked = Decoding { pending: Seq::empty(), events: seq![event] };
    assert(seq![hook].drop_last() =~= Seq::<Call>::empty());
    assert(start.run(seq![hook].drop_last()) == start);
    assert(start.events.push(event) =~= seq![event]);
    assert(start.run(seq![hook]) == hooked);
    lemma_puts_ignored(hooked, payload);
    lemma_run_concat(start, seq![hook], payload);
    lemma_run_concat(start, seq![hook] + payload, seq![Call::Unhook]);
    assert(seq![Call::Unhook].drop_last() =~= Seq::<Call>::empty());
    assert(hooked.run(seq![Call::Unhook].drop_last()) == hooked);
    assert(hooked.run(seq![Call::Unhook]) == hooked);
    assert(decoded(calls) == seq![event]);
    assert(event_lines(seq![event], with_width) =~= seq![rendered(event, with_width)]);
    assert(seq![event].drop_last() =~= Seq::<Event>::empty());
    assert(encoded(event).len() == 0);
    assert(event_frames(micros, seq![event]) == event_frames(micros, seq![event].drop_last()));
}

/// The bytes that a `Print` event is re-encoded to are the UTF-8 form of its
/// text: decoding them as UTF-8 gives the text back.
pub proof fn lemma_print_bytes_are_text(text: Seq<char>)
    ensures
        decode_utf8(encoded(Event::Print { text })) == text,
{
    encode_utf8_decode_utf8(text);
}

/// The callback by which the classifier reports an event other than a
/// print run. The hook of a DCS sequence comes with a final character, which
/// the event does not keep.
pub open spec fn dispatch_for(event: Event, action: char) -> Call
    recommends
        !(event is Print),
{
    match event {
        Event::Control { byte } => Call::Execute(byte),
        Event::Escape { intermediate, final_byte } => Call::EscDispatch {
            intermediates: intermediate_bytes(intermediate),
            ignore: false,
            byte: final_byte,
        },
        Event::Csi { intermediate, params, final_char } => Call::CsiDispatch {
            params,
            intermediates: intermediate_bytes(intermediate),
            ignore: false,
            action: final_char,
        },
        Event::Osc { params } => Call::OscDispatch { params, bell_terminated: true },
        Event::Dcs { intermediate, params } => Call::Hook {
            params,
            intermediates: intermediate_bytes(intermediate),
            ignore: false,
            action,
        },
        Event::Print { .. } => Call::Unhook,
    }
}

/// Decoding undoes `dispatch_for`: the callback that reports an event
/// decodes to that event and nothing else.
pub proof fn lemma_dispatch_decodes_back(event: Event, action: char)
    requires
        !(event is Print),
    ensures
        decoded(seq![dispatch_for(event, action)]) == seq![event],
{
    let calls = seq![dispatch_for(event, action)];
    let start = Decoding::empty();
    assert(calls.drop_last() =~= Seq::<Call>::empty());
    assert(start.run(calls.drop_last()) == start);
    assert(first_intermediate(intermediate_bytes(None)) == None::<u8>);
    assert(forall|i: u8| first_intermediate(#[trigger] intermediate_bytes(Some(i))) == Some(i));
    assert(start.events.push(event) =~= seq![event]);
}

/// `Print` callbacks that carry the characters of a text, and no other
/// callback, decode to the one `Print` event with that text.
pub proof fn lemma_prints_decode_back(calls: Seq<Call>, text: Seq<char>)
    requires
        text.len() > 0,
        all_print(calls),
        printed(calls) == text,
    ensures
        decoded(calls) == seq![Event::Print { text }],
{
    lemma_printable_only(calls);
}

/// The number that a sequence of decimal digits is read as.
pub open spec fn number_read(bytes: Seq<u8>) -> nat
    decreases bytes.len(),
{
    if bytes.len() == 0 {
        0
    } else {
        (number_read(bytes.drop_last()) * 10 + (bytes.last() - 0x30)) as nat
    }
}

/// The decimal notation of a number consists of digits only, at least one,
/// and reads back as the number.
pub proof fn lemma_digits_read_back(n: nat)
    ensures
        digits(n).len() >= 1,
        forall|i: int| 0 <= i < digits(n).len() ==> 0x30 <= #[trigger] digits(n)[i] <= 0x39,
        number_read(digits(n)) == n,
    decreases n,
{
    if n < 10 {
        assert(digits(n).drop_last() =~= Seq::<u8>::empty());
        assert(number_read(digits(n).drop_last()) == 0);
    } else {
        lemma_digits_read_back(n / 10);
        assert(digits(n).drop_last() =~= digits(n / 10));
        assert(digits(n).last() == digit((n % 10) as int));
    }
}

/// The four bytes of a 32-bit number read back as the number.
pub proof fn lemma_le32_read_back(n: int, before: Seq<u8>, after: Seq<u8>)
    requires
        0 <= n <= u32::MAX,
    ensures
        le32(before + le32_bytes(n) + after, before.len() as int) == n,
{
    let bytes = before + le32_bytes(n) + after;
    let at = before.len() as int;
    assert(bytes[at] == le32_bytes(n)[0]);
    assert(bytes[at + 1] == le32_bytes(n)[1]);
    assert(bytes[at + 2] == le32_bytes(n)[2]);
    assert(bytes[at + 3] == le32_bytes(n)[3]);
}

/// A frame that fits is read back from the bytes it was written as,
/// whatever follows them, and these bytes are then used up.
pub proof fn lemma_frame_read_back(frame: FrameView, more: Seq<u8>)
    requires
        fits(frame),
    ensures
        has_frame(serialized(frame) + more),
        head_frame(serialized(frame) + more) == frame,
        frame_len(serialized(frame) + more) == serialized(frame).len(),
        (serialized(frame) + more).skip(frame_len(serialized(frame) + more)) == more,
{
    let secs = frame.micros as int / MICROS_PER_SEC as int;
    let micros = frame.micros as int % MICROS_PER_SEC as int;
    let len = frame.data.len() as int;
    let stream = serialized(frame) + more;
    let empty = Seq::<u8>::empty();
    assert(stream =~= empty + le32_bytes(secs) + (le32_bytes(micros) + le32_bytes(len)
        + frame.data + more));
    lemma_le32_read_back(secs, empty, le32_bytes(micros) + le32_bytes(len) + frame.data + more);
    assert(stream =~= le32_bytes(secs) + le32_bytes(micros) + (le32_bytes(len) + frame.data
        + more));
    lemma_le32_read_back(micros, le32_bytes(secs), le32_bytes(len) + frame.data + more);
    assert(stream =~= (le32_bytes(secs) + le32_bytes(micros)) + le32_bytes(len) + (frame.data
        + more));
    lemma_le32_read_back(len, le32_bytes(secs) + le32_bytes(micros), frame.data + more);
    assert(le32(stream, 0) == secs);
    assert(le32(stream, 4) == micros);
    assert(le32(stream, 8) == len);
    assert(head_frame(stream).data =~= frame.data);
    assert(stream.skip(frame_len(stream)) =~= more);
}

/// The bytes of one frame that fits hold that frame and nothing else.
proof fn lemma_single_frame(frame: FrameView)
    requires
        fits(frame),
    ensures
        frames_in(serialized(frame)) == seq![frame],
        rest(serialized(frame)) == Seq::<u8>::empty(),
{
    let empty = Seq::<u8>::empty();
    let stream = serialized(frame);
    lemma_frame_read_back(frame, empty);
    assert(stream + empty =~= stream);
    assert(!has_frame(empty));
    assert(frames_in(empty) =~= Seq::<FrameView>::empty());
    assert(rest(empty) == empty);
    assert(frames_in(stream) == seq![head_frame(stream)] + frames_in(
        stream.skip(frame_len(stream)),
    ));
    assert(seq![frame] + Seq::<FrameView>::empty() =~= seq![frame]);
}

/// Reading a written recording gives back its frames, and leaves no byte
/// behind.
pub proof fn lemma_recording_read_back(frames: Seq<FrameView>)
    requires
        forall|i: int| 0 <= i < frames.len() ==> fits(#[trigger] frames[i]),
    ensures
        frames_in(recording_bytes(frames)) == frames,
        rest(recording_bytes(frames)) == Seq::<u8>::empty(),
    decreases frames.len(),
{
    if frames.len() > 0 {
        let front = frames.drop_last();
        let last = frames.last();
        assert forall|i: int| 0 <= i < front.len() implies fits(#[trigger] front[i]) by {
            assert(front[i] == frames[i]);
        }
        lemma_recording_read_back(front);
        lemma_frames_append(recording_bytes(front), serialized(last));
        lemma_single_frame(last);
        assert(Seq::<u8>::empty() + serialized(last) =~= serialized(last));
        assert(frames =~= front + seq![last]);
    }
}

} // verus!
