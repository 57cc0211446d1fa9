use explode::classifier::decode;
use explode::encode::encode;
use explode::event::TerminalEvent;
use explode::printer::Printer;
use explode::render::render;

fn text(s: &str) -> TerminalEvent {
    TerminalEvent::Print { text: s.to_string() }
}

fn lines(events: &[TerminalEvent]) -> Vec<String> {
    events.iter().map(|e| render(e, false)).collect()
}

#[test]
fn pending_run_is_flushed_as_one_print() {
    let mut printer = Printer::new();
    printer.append('h');
    printer.append('i');
    let events = printer.finish();
    assert_eq!(events, vec![text("hi")]);
}

#[test]
fn flush_without_pending_text_emits_nothing() {
    let mut printer = Printer::new();
    printer.flush();
    printer.flush();
    assert_eq!(printer.finish(), vec![]);
}

#[test]
fn printable_bytes_decode_to_one_print() {
    assert_eq!(decode(b"plain text, nothing else"), vec![text("plain text, nothing else")]);
}

#[test]
fn utf8_text_decodes_to_its_characters() {
    assert_eq!(decode("h\u{e9}llo \u{4e16}\u{754c}".as_bytes()), vec![text("h\u{e9}llo \u{4e16}\u{754c}")]);
}

#[test]
fn empty_input_decodes_to_nothing() {
    assert_eq!(decode(b""), vec![]);
}

#[test]
fn csi_parameters_keep_their_order() {
    let events = decode(b"\x1b[1;3;2m");
    assert_eq!(
        events,
        vec![TerminalEvent::CsiSequence { intermediate: None, params: vec![1, 3, 2], final_char: 'm' }]
    );
    assert_eq!(render(&events[0], false), "CSI 1 ; 3 ; 2 m");
    assert_eq!(encode(&events[0]), b"\x1b[1;3;2m".to_vec());
}

#[test]
fn csi_with_private_marker_has_an_intermediate() {
    let events = decode(b"\x1b[?25h");
    assert_eq!(
        events,
        vec![TerminalEvent::CsiSequence { intermediate: Some(b'?'), params: vec![25], final_char: 'h' }]
    );
    assert_eq!(render(&events[0], false), "CSI ? 25 h");
    assert_eq!(encode(&events[0]), b"\x1b[?25h".to_vec());
}

#[test]
fn osc_title_is_rendered_and_reencoded_with_bel() {
    let events = decode(b"\x1b]0;hello\x07");
    assert_eq!(
        events,
        vec![TerminalEvent::OscSequence { params: vec![b"0".to_vec(), b"hello".to_vec()] }]
    );
    assert_eq!(render(&events[0], false), "OSC \"0\" ; \"hello\"");
    assert_eq!(encode(&events[0]), b"\x1b]0;hello\x07".to_vec());
}

#[test]
fn osc_ended_by_string_terminator_is_reencoded_with_bel() {
    let events = decode(b"\x1b]0;hello\x1b\\");
    assert_eq!(events[0], TerminalEvent::OscSequence { params: vec![b"0".to_vec(), b"hello".to_vec()] });
    assert_eq!(encode(&events[0]), b"\x1b]0;hello\x07".to_vec());
}

#[test]
fn hello_world_scenario() {
    let events = decode(b"Hello\x1b[31mWorld\x07");
    assert_eq!(
        events,
        vec![
            text("Hello"),
            TerminalEvent::CsiSequence { intermediate: None, params: vec![31], final_char: 'm' },
            text("World"),
            TerminalEvent::Control { byte: 0x07 },
        ]
    );
    assert_eq!(lines(&events), vec!["TEXT \"Hello\"", "CSI 31 m", "TEXT \"World\"", "CTRL G"]);
}

#[test]
fn dcs_hook_and_unhook_give_one_event() {
    let events = decode(b"\x1bP1;2|payload\x9c");
    assert_eq!(events, vec![TerminalEvent::DcsHook { intermediate: None, params: vec![1, 2] }]);
    assert_eq!(render(&events[0], true), "DCS 1 ; 2");
    assert_eq!(encode(&events[0]), Vec::<u8>::new());
}

#[test]
fn escape_sequences_decode_with_and_without_intermediate() {
    assert_eq!(decode(b"\x1b7"), vec![TerminalEvent::Escape { intermediate: None, final_byte: b'7' }]);
    assert_eq!(
        decode(b"\x1b(B"),
        vec![TerminalEvent::Escape { intermediate: Some(b'('), final_byte: b'B' }]
    );
}

#[test]
fn lone_escape_byte_decodes_to_nothing() {
    assert_eq!(encode(&TerminalEvent::Control { byte: 0x1b }), vec![0x1b]);
    assert_eq!(decode(&[0x1b]), vec![]);
}

#[test]
fn invalid_utf8_is_printed_as_replacement() {
    assert_eq!(decode(&[b'a', 0xc3, b'b', b'c']), vec![text("a\u{fffd}c")]);
}

#[test]
fn many_csi_parameters_are_cut_off() {
    let events = decode(b"\x1b[1;2;3;4;5;6;7;8;9;10;11;12;13;14;15;16;17;18m");
    assert_eq!(
        events,
        vec![TerminalEvent::CsiSequence {
            intermediate: None,
            params: (1..=16).collect(),
            final_char: 'm',
        }]
    );
}
