use rust_mux::draw::{compose_frame, compose_status_bar};
use rust_mux::mux::{LoopAction, MuxApp};
use rust_mux::pty::PtyEvent;
use rust_mux::size::TerminalSize;

fn host(ws_row: u16, ws_col: u16) -> TerminalSize {
    TerminalSize { ws_row, ws_col, ws_xpixel: 0, ws_ypixel: 0 }
}

#[test]
fn the_status_bar_of_one_window() {
    let bar = compose_status_bar(1, 0, false, host(24, 80));
    let expected = "\x1b[48;5;236m\x1b[38;5;255m 🦀 RUST-MUX | Tabs: \
                    \x1b[48;5;240m\x1b[38;5;255m 0:bash* \x1b[48;5;236m | Grid: 24x80 \
                    \x1b[K\x1b[0m";
    assert_eq!(bar, expected.as_bytes());
}

#[test]
fn the_status_bar_of_three_windows_and_a_command() {
    let bar = compose_status_bar(3, 1, true, host(105, 0));
    let expected = "\x1b[48;5;236m\x1b[38;5;255m 🦀 RUST-MUX | \
                    \x1b[48;5;160m\x1b[38;5;255m [PREFIX] \x1b[48;5;236m Tabs: 0:bash  \
                    \x1b[48;5;240m\x1b[38;5;255m 1:bash* \x1b[48;5;236m 2:bash  \
                    | Grid: 105x0 \x1b[K\x1b[0m";
    assert_eq!(bar, expected.as_bytes());
}

#[test]
fn tabs_past_the_ninth_have_two_digits() {
    let bar = String::from_utf8(compose_status_bar(12, 11, false, host(65535, 1000))).unwrap();
    assert!(bar.contains(" 9:bash  10:bash  \x1b[48;5;240m\x1b[38;5;255m 11:bash* "));
    assert!(bar.contains(" | Grid: 65535x1000 "));
}

#[test]
fn a_frame_in_its_order() {
    let frame = compose_frame(false, b"SCREEN", (4, 9), b"BAR", host(30, 90));
    assert_eq!(frame, b"\x1b[?2004l\x1b[HSCREEN\x1b[30;1HBAR\x1b[5;10H");
    let frame = compose_frame(true, b"", (0, 0), b"", host(1, 1));
    assert_eq!(frame, b"\x1b[?2004h\x1b[H\x1b[1;1H\x1b[1;1H");
}

#[test]
fn the_interface_shows_the_current_window() {
    let mut app = MuxApp::new(0u8, host(24, 80));
    app.handle_pty(0, PtyEvent::Data(b"first\x1b[?2004h"), false);
    app.spawn_new_window(1u8, host(24, 80));
    app.handle_pty(1, PtyEvent::Data(b"second\r\nline"), false);
    let mut parser = vt100::Parser::new(23, 80, 0);
    parser.process(b"second\r\nline");
    let expected = compose_frame(
        false,
        &parser.screen().contents_formatted(),
        (1, 4),
        &compose_status_bar(2, 1, false, host(24, 80)),
        host(24, 80),
    );
    assert_eq!(app.draw_interface(host(24, 80)), expected);
    app.handle_stdin(Some(b"\x02p"), 0, LoopAction::Continue);
    let frame = app.draw_interface(host(24, 80));
    assert!(frame.starts_with(b"\x1b[?2004h"));
    assert!(frame.ends_with(b"\x1b[1;6H"));
}

#[test]
fn hidden_output_and_plain_keys_do_not_change_the_frame() {
    let mut app = MuxApp::new(0u8, host(24, 80));
    app.spawn_new_window(1u8, host(24, 80));
    let before = app.draw_interface(host(24, 80));
    app.handle_pty(0, PtyEvent::Data(b"hidden"), false);
    assert_eq!(app.draw_interface(host(24, 80)), before);
    app.handle_stdin(Some(b"plain"), 0, LoopAction::Continue);
    assert_eq!(app.draw_interface(host(24, 80)), before);
    app.handle_stdin(Some(b"\x02"), 0, LoopAction::Continue);
    assert_ne!(app.draw_interface(host(24, 80)), before);
}
