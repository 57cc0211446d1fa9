use explode::event::TerminalEvent;
use explode::printer::Printer;
use explode::render::quote;
use explode::width::column_count;
use vte::Perform;

fn text(s: &str) -> TerminalEvent {
    TerminalEvent::Print { text: s.to_string() }
}

#[test]
fn print_callbacks_extend_one_run() {
    let mut printer = Printer::new();
    printer.print('a');
    printer.print('b');
    printer.print('\u{4e16}');
    assert_eq!(printer.finish(), vec![text("ab\u{4e16}")]);
}

#[test]
fn split_feeding_of_characters_gives_the_same_run() {
    let mut together = Printer::new();
    together.print('a');
    together.print('b');
    let mut apart = Printer::new();
    apart.append('a');
    apart.append('b');
    assert_eq!(together.finish(), apart.finish());
}

#[test]
fn execute_flushes_the_run_first() {
    let mut printer = Printer::new();
    printer.print('a');
    printer.execute(0x0a);
    printer.print('b');
    assert_eq!(printer.finish(), vec![text("a"), TerminalEvent::Control { byte: 0x0a }, text("b")]);
}

#[test]
fn csi_dispatch_keeps_parameters_and_first_intermediate() {
    let mut printer = Printer::new();
    printer.csi_dispatch(&[1, 3, 2], &[b'?', b'$'], true, 'm');
    printer.csi_dispatch(&[], &[], false, 'H');
    assert_eq!(
        printer.finish(),
        vec![
            TerminalEvent::CsiSequence { intermediate: Some(b'?'), params: vec![1, 3, 2], final_char: 'm' },
            TerminalEvent::CsiSequence { intermediate: None, params: vec![], final_char: 'H' },
        ]
    );
}

#[test]
fn esc_dispatch_keeps_the_first_intermediate() {
    let mut printer = Printer::new();
    printer.esc_dispatch(&[], false, b'c');
    printer.esc_dispatch(&[b'(', b')'], false, b'B');
    assert_eq!(
        printer.finish(),
        vec![
            TerminalEvent::Escape { intermediate: None, final_byte: b'c' },
            TerminalEvent::Escape { intermediate: Some(b'('), final_byte: b'B' },
        ]
    );
}

#[test]
fn osc_dispatch_copies_every_parameter() {
    let mut printer = Printer::new();
    printer.print('x');
    printer.osc_dispatch(&[b"0", b"", b"a;b"], false);
    assert_eq!(
        printer.finish(),
        vec![
            text("x"),
            TerminalEvent::OscSequence { params: vec![b"0".to_vec(), vec![], b"a;b".to_vec()] },
        ]
    );
}

#[test]
fn hook_is_kept_and_payload_is_dropped() {
    let mut printer = Printer::new();
    printer.hook(&[1, 2], &[b'$'], false, 'q');
    printer.put(b'x');
    printer.put(b'y');
    printer.unhook();
    assert_eq!(
        printer.finish(),
        vec![TerminalEvent::DcsHook { intermediate: Some(b'$'), params: vec![1, 2] }]
    );
}

#[test]
fn payload_and_unhook_do_not_flush_the_run() {
    let mut printer = Printer::new();
    printer.print('a');
    printer.put(b'x');
    printer.unhook();
    printer.print('b');
    assert_eq!(printer.finish(), vec![text("ab")]);
}

#[test]
fn flush_in_the_middle_ends_the_run() {
    let mut printer = Printer::new();
    printer.append('a');
    printer.flush();
    printer.append('b');
    assert_eq!(printer.finish(), vec![text("a"), text("b")]);
}

#[test]
fn a_missing_width_counts_as_no_column() {
    assert_eq!(column_count(None), 0);
    assert_eq!(column_count(Some(0)), 0);
    assert_eq!(column_count(Some(2)), 2);
}

#[test]
fn quote_wraps_the_text() {
    assert_eq!(quote("hello"), "\"hello\"");
    assert_eq!(quote(""), "\"\"");
    assert_eq!(quote("a\"b"), "\"a\"b\"");
}
