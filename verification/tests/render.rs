use explode::decimal::{push_decimal, push_decimal_text, push_digits};
use explode::encode::{encode, osc_param_bytes, param_bytes};
use explode::event::TerminalEvent;
use explode::render::{osc_param_str, param_str, render};
use explode::width::display_width;

fn print(s: &str) -> TerminalEvent {
    TerminalEvent::Print { text: s.to_string() }
}

#[test]
fn print_is_rendered_between_quotes() {
    assert_eq!(render(&print("Hello"), false), "TEXT \"Hello\"");
}

#[test]
fn print_reports_its_width_when_asked() {
    assert_eq!(render(&print("Hello"), true), "TEXT(5) \"Hello\"");
}

#[test]
fn wide_characters_take_two_columns() {
    assert_eq!(display_width("\u{4e16}\u{754c}"), 4);
    assert_eq!(render(&print("\u{4e16}\u{754c}"), true), "TEXT(4) \"\u{4e16}\u{754c}\"");
}

#[test]
fn control_characters_take_no_column() {
    assert_eq!(display_width("a\u{7f}b"), 2);
    assert_eq!(display_width(""), 0);
}

#[test]
fn width_is_the_sum_over_the_characters() {
    assert_eq!(display_width("a\u{4e16}e\u{301}"), 1 + 2 + 1 + 0);
}

#[test]
fn control_is_rendered_as_its_letter() {
    assert_eq!(render(&TerminalEvent::Control { byte: 0x03 }, false), "CTRL C");
    assert_eq!(render(&TerminalEvent::Control { byte: 0x07 }, true), "CTRL G");
    assert_eq!(render(&TerminalEvent::Control { byte: 0x00 }, false), "CTRL @");
    assert_eq!(render(&TerminalEvent::Control { byte: 0x1f }, false), "CTRL _");
}

#[test]
fn control_letter_wraps_around_at_the_top() {
    assert_eq!(render(&TerminalEvent::Control { byte: 0xc1 }, false), "CTRL \u{1}");
}

#[test]
fn escape_is_rendered_with_its_bytes_as_characters() {
    assert_eq!(render(&TerminalEvent::Escape { intermediate: None, final_byte: b'7' }, false), "ESC 7");
    assert_eq!(
        render(&TerminalEvent::Escape { intermediate: Some(b'('), final_byte: b'B' }, false),
        "ESC ( B"
    );
}

#[test]
fn csi_is_rendered_with_joined_parameters() {
    let plain = TerminalEvent::CsiSequence { intermediate: None, params: vec![31], final_char: 'm' };
    assert_eq!(render(&plain, false), "CSI 31 m");
    let marked = TerminalEvent::CsiSequence { intermediate: Some(b'?'), params: vec![1049, 2], final_char: 'h' };
    assert_eq!(render(&marked, false), "CSI ? 1049 ; 2 h");
    let bare = TerminalEvent::CsiSequence { intermediate: None, params: vec![], final_char: 'H' };
    assert_eq!(render(&bare, false), "CSI  H");
}

#[test]
fn osc_is_rendered_with_quoted_parameters() {
    let osc = TerminalEvent::OscSequence { params: vec![b"0".to_vec(), b"hello".to_vec()] };
    assert_eq!(render(&osc, false), "OSC \"0\" ; \"hello\"");
    assert_eq!(render(&TerminalEvent::OscSequence { params: vec![] }, false), "OSC ");
}

#[test]
fn osc_with_malformed_text_is_rendered_with_replacement() {
    let osc = TerminalEvent::OscSequence { params: vec![vec![b'a', 0xff, b'b']] };
    assert_eq!(render(&osc, false), "OSC \"a\u{fffd}b\"");
    assert_eq!(osc_param_str(&[vec![0xc3, 0xa9]]), "\"\u{e9}\"");
}

#[test]
fn dcs_is_rendered_without_a_final_character() {
    let plain = TerminalEvent::DcsHook { intermediate: None, params: vec![1, 2] };
    assert_eq!(render(&plain, false), "DCS 1 ; 2");
    let marked = TerminalEvent::DcsHook { intermediate: Some(b'$'), params: vec![0] };
    assert_eq!(render(&marked, false), "DCS $ 0");
}

#[test]
fn parameters_are_written_in_decimal() {
    assert_eq!(param_str(&[]), "");
    assert_eq!(param_str(&[0]), "0");
    assert_eq!(param_str(&[1, 3, 2]), "1 ; 3 ; 2");
    assert_eq!(param_str(&[-5, i64::MAX, i64::MIN]), "-5 ; 9223372036854775807 ; -9223372036854775808");
    assert_eq!(param_bytes(&[]), b"".to_vec());
    assert_eq!(param_bytes(&[1, 3, 2]), b"1;3;2".to_vec());
    assert_eq!(param_bytes(&[i64::MIN, 10]), b"-9223372036854775808;10".to_vec());
}

#[test]
fn decimal_notation_has_no_leading_zeros() {
    let mut out = vec![b'x'];
    push_digits(&mut out, 0);
    push_digits(&mut out, 1002003);
    push_decimal(&mut out, -40);
    assert_eq!(out, b"x01002003-40".to_vec());
    let mut line = String::from("n=");
    push_decimal_text(&mut line, 907);
    assert_eq!(line, "n=907");
    let mut big = Vec::new();
    push_digits(&mut big, u128::MAX);
    assert_eq!(big, b"340282366920938463463374607431768211455".to_vec());
}

#[test]
fn print_is_encoded_as_utf8() {
    assert_eq!(encode(&print("h\u{e9}")), vec![b'h', 0xc3, 0xa9]);
}

#[test]
fn control_is_encoded_as_its_byte() {
    assert_eq!(encode(&TerminalEvent::Control { byte: 0x0d }), vec![0x0d]);
}

#[test]
fn escape_is_encoded_with_its_intermediate() {
    assert_eq!(encode(&TerminalEvent::Escape { intermediate: None, final_byte: b'M' }), b"\x1bM".to_vec());
    assert_eq!(
        encode(&TerminalEvent::Escape { intermediate: Some(b'#'), final_byte: b'8' }),
        b"\x1b#8".to_vec()
    );
}

#[test]
fn csi_is_encoded_without_spaces() {
    let csi = TerminalEvent::CsiSequence { intermediate: Some(b'?'), params: vec![1049, 2], final_char: 'h' };
    assert_eq!(encode(&csi), b"\x1b[?1049;2h".to_vec());
    let bare = TerminalEvent::CsiSequence { intermediate: None, params: vec![], final_char: 'H' };
    assert_eq!(encode(&bare), b"\x1b[H".to_vec());
}

#[test]
fn csi_final_character_is_cut_to_one_byte() {
    let csi = TerminalEvent::CsiSequence { intermediate: None, params: vec![7], final_char: '\u{141}' };
    assert_eq!(encode(&csi), b"\x1b[7A".to_vec());
}

#[test]
fn osc_is_encoded_raw_and_ends_with_bel() {
    let osc = TerminalEvent::OscSequence { params: vec![b"2".to_vec(), vec![0xff, b'x']] };
    assert_eq!(encode(&osc), vec![0x1b, b']', b'2', b';', 0xff, b'x', 0x07]);
    assert_eq!(osc_param_bytes(&[]), Vec::<u8>::new());
    assert_eq!(encode(&TerminalEvent::OscSequence { params: vec![] }), vec![0x1b, b']', 0x07]);
}

#[test]
fn dcs_is_not_encoded() {
    let dcs = TerminalEvent::DcsHook { intermediate: Some(b'$'), params: vec![1] };
    assert_eq!(encode(&dcs), Vec::<u8>::new());
}
