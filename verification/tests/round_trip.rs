use explode::classifier::decode;
use explode::encode::encode;
use explode::event::TerminalEvent;
use explode::render::render;

fn renders_the_same_after_a_round_trip(event: TerminalEvent) {
    let again = decode(&encode(&event));
    assert_eq!(again.len(), 1);
    assert_eq!(render(&again[0], true), render(&event, true));
    assert_eq!(render(&again[0], false), render(&event, false));
}

#[test]
fn print_survives_a_round_trip() {
    renders_the_same_after_a_round_trip(TerminalEvent::Print { text: "Hello, w\u{f6}rld \u{4e16}".to_string() });
}

#[test]
fn control_survives_a_round_trip() {
    for byte in [0x00u8, 0x07, 0x08, 0x0a, 0x0d, 0x18, 0x1a, 0x1f] {
        renders_the_same_after_a_round_trip(TerminalEvent::Control { byte });
    }
}

#[test]
fn escape_survives_a_round_trip() {
    renders_the_same_after_a_round_trip(TerminalEvent::Escape { intermediate: None, final_byte: b'7' });
    renders_the_same_after_a_round_trip(TerminalEvent::Escape { intermediate: Some(b'('), final_byte: b'0' });
}

#[test]
fn csi_survives_a_round_trip() {
    renders_the_same_after_a_round_trip(TerminalEvent::CsiSequence {
        intermediate: None,
        params: vec![1, 3, 2],
        final_char: 'm',
    });
    renders_the_same_after_a_round_trip(TerminalEvent::CsiSequence {
        intermediate: Some(b'?'),
        params: vec![1049],
        final_char: 'l',
    });
    renders_the_same_after_a_round_trip(TerminalEvent::CsiSequence {
        intermediate: None,
        params: vec![0],
        final_char: 'J',
    });
}

#[test]
fn osc_survives_a_round_trip() {
    renders_the_same_after_a_round_trip(TerminalEvent::OscSequence {
        params: vec![b"0".to_vec(), b"hello".to_vec()],
    });
}

#[test]
fn decoded_events_survive_a_round_trip() {
    let source = b"ls\r\n\x1b[1;32mfile\x1b[0m \x1b]2;title\x07\x1b(B\x1b[?25l";
    for event in decode(source) {
        renders_the_same_after_a_round_trip(event);
    }
}
