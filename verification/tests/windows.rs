use rust_mux::bytes::{contains_bytes, scan_paste_mode};
use rust_mux::mux::{LoopAction, MuxApp, ResizeNotice};
use rust_mux::pty::{ClosedWindow, PtyEvent, PtyStep};
use rust_mux::screen::Screen;
use rust_mux::size::{pty_rows, pty_size, sync_terminal_size, TerminalSize};

fn host(ws_row: u16, ws_col: u16) -> TerminalSize {
    TerminalSize { ws_row, ws_col, ws_xpixel: 0, ws_ypixel: 0 }
}

fn app(windows: u32) -> MuxApp<u32> {
    let mut app = MuxApp::new(100, host(24, 80));
    for i in 1..windows {
        app.spawn_new_window(100 + i, host(24, 80));
    }
    app
}

fn masters(app: &MuxApp<u32>) -> Vec<u32> {
    app.windows.iter().map(|w| w.master).collect()
}

fn drawn(output: &[&[u8]], rows: u16, cols: u16) -> Vec<u8> {
    let mut parser = vt100::Parser::new(rows, cols, 0);
    for piece in output {
        parser.process(piece);
    }
    parser.screen().contents_formatted()
}

#[test]
fn an_event_of_no_window_is_ignored() {
    let mut app = app(2);
    assert_eq!(app.handle_pty(2, PtyEvent::Ready, false), PtyStep::Ignore);
    assert_eq!(app.handle_pty(9, PtyEvent::Gone, true), PtyStep::Ignore);
    assert_eq!(masters(&app), vec![100, 101]);
}

#[test]
fn a_readable_window_is_read() {
    let mut app = app(2);
    assert_eq!(app.handle_pty(0, PtyEvent::Ready, false), PtyStep::Read { changed: false });
    assert_eq!(app.handle_pty(0, PtyEvent::Interrupted, true), PtyStep::Read { changed: true });
}

#[test]
fn output_of_the_shown_window_is_a_change() {
    let mut app = app(2);
    let step = app.handle_pty(1, PtyEvent::Data(b"hi"), false);
    assert_eq!(step, PtyStep::Read { changed: true });
    let step = app.handle_pty(0, PtyEvent::Data(b"hidden"), false);
    assert_eq!(step, PtyStep::Read { changed: false });
    let step = app.handle_pty(0, PtyEvent::Data(b"hidden"), true);
    assert_eq!(step, PtyStep::Read { changed: true });
    assert_eq!(app.windows[1].screen.contents(), drawn(&[b"hi"], 23, 80));
    assert_eq!(app.windows[0].screen.contents(), drawn(&[b"hiddenhidden"], 23, 80));
    assert_eq!(app.windows[1].screen.cursor(), (0, 2));
    assert_eq!(app.windows[0].screen.cursor(), (0, 12));
}

#[test]
fn when_nothing_is_left_to_read_the_window_is_watched_again() {
    let mut app = app(3);
    let step = app.handle_pty(1, PtyEvent::WouldBlock, false);
    assert_eq!(step, PtyStep::Rearm { key: 2, action: LoopAction::Continue });
    let step = app.handle_pty(2, PtyEvent::WouldBlock, true);
    assert_eq!(step, PtyStep::Rearm { key: 3, action: LoopAction::Redraw });
    let step = app.handle_pty(0, PtyEvent::Failed, true);
    assert_eq!(step, PtyStep::Rearm { key: 1, action: LoopAction::Redraw });
}

#[test]
fn the_end_of_output_closes_the_window() {
    let mut app = app(3);
    let step = app.handle_pty(1, PtyEvent::Data(b""), false);
    assert_eq!(
        step,
        PtyStep::Closed {
            window: ClosedWindow { master: 101, last: false, keys: vec![1, 2] },
            action: LoopAction::Redraw,
        }
    );
    assert_eq!(masters(&app), vec![100, 102]);
    assert_eq!(app.current_window_idx, 1);
}

#[test]
fn the_last_window_ends_the_loop() {
    let mut app = app(1);
    let step = app.handle_pty(0, PtyEvent::Gone, false);
    assert_eq!(
        step,
        PtyStep::Closed {
            window: ClosedWindow { master: 100, last: true, keys: vec![] },
            action: LoopAction::Exit,
        }
    );
    assert!(app.windows.is_empty());
}

#[test]
fn closing_keeps_the_shown_index_where_it_can() {
    let mut app = app(3);
    app.current_window_idx = 0;
    app.close_window(2);
    assert_eq!(app.current_window_idx, 0);
    app.current_window_idx = 1;
    app.close_window(0);
    assert_eq!(app.current_window_idx, 0);
    assert_eq!(masters(&app), vec![101]);
}

#[test]
fn opening_and_closing_gives_the_windows_back() {
    let mut app = app(2);
    app.current_window_idx = 0;
    app.spawn_new_window(7, host(24, 80));
    assert_eq!(app.next_key(), 4);
    let closed = app.close_window(2);
    assert_eq!(closed, ClosedWindow { master: 7, last: false, keys: vec![1, 2] });
    assert_eq!(masters(&app), vec![100, 101]);
    assert_eq!(app.current_window_idx, 1);
    assert_eq!(app.next_key(), 3);
}

#[test]
fn bracketed_paste_follows_the_program() {
    let mut app = app(2);
    app.handle_pty(1, PtyEvent::Data(b"x\x1b[?2004hy"), false);
    assert!(app.windows[1].bracketed_paste);
    assert!(!app.windows[0].bracketed_paste);
    app.handle_pty(1, PtyEvent::Data(b"plain"), false);
    assert!(app.windows[1].bracketed_paste);
    app.handle_pty(1, PtyEvent::Data(b"\x1b[?2004l"), false);
    assert!(!app.windows[1].bracketed_paste);
}

#[test]
fn turning_paste_on_wins_within_one_piece() {
    assert!(scan_paste_mode(false, b"\x1b[?2004h\x1b[?2004l"));
    assert!(scan_paste_mode(false, b"\x1b[?2004l\x1b[?2004h"));
    assert!(!scan_paste_mode(true, b"..\x1b[?2004l"));
    assert!(scan_paste_mode(true, b"\x1b[?2004"));
    assert!(!scan_paste_mode(false, b""));
}

#[test]
fn byte_strings_are_found_anywhere() {
    assert!(contains_bytes(b"abc", b"abc"));
    assert!(contains_bytes(b"xabc", b"abc"));
    assert!(contains_bytes(b"aabc", b"abc"));
    assert!(contains_bytes(b"", b""));
    assert!(!contains_bytes(b"ab", b"abc"));
    assert!(!contains_bytes(b"abxabd", b"abc"));
}

#[test]
fn a_resize_reaches_every_screen() {
    let mut app = app(2);
    app.handle_pty(0, PtyEvent::Data(b"hello"), false);
    app.handle_terminal_resize(host(10, 20));
    assert_eq!(app.windows[0].screen.size(), (9, 20));
    assert_eq!(app.windows[1].screen.size(), (9, 20));
    let mut parser = vt100::Parser::new(23, 80, 0);
    parser.process(b"hello");
    parser.screen_mut().set_size(9, 20);
    parser.process(b"\x1b[99;99H!");
    app.handle_pty(0, PtyEvent::Data(b"\x1b[99;99H!"), false);
    assert_eq!(app.windows[0].screen.contents(), parser.screen().contents_formatted());
    assert_eq!(app.windows[0].screen.cursor(), (8, 20));
    assert_eq!(app.windows[0].screen.cursor(), parser.screen().cursor_position());
}

#[test]
fn screens_know_whether_they_take_everything() {
    assert!(Screen::new(2, 3).is_feedable());
    assert!(Screen::new(2, 65527).is_feedable());
    assert!(!Screen::new(1, 80).is_feedable());
    assert!(!Screen::new(24, 2).is_feedable());
    assert!(!Screen::new(24, 65528).is_feedable());
    let mut ascii = Screen::new(24, 80);
    ascii.feed(b"plain text");
    ascii.resize(24, 40);
    assert!(ascii.is_feedable());
    ascii.resize(1, 40);
    assert!(!ascii.is_feedable());
    ascii.resize(24, 90);
    assert!(ascii.is_feedable());
    let mut wide = Screen::new(24, 80);
    wide.feed("\u{6f22}".as_bytes());
    assert!(wide.is_feedable());
    wide.resize(24, 80);
    assert!(wide.is_feedable());
    wide.resize(24, 79);
    assert!(!wide.is_feedable());
}

#[test]
fn trying_leaves_doubtful_screens_alone() {
    let mut app = MuxApp::new(1u8, host(2, 80));
    assert_eq!(app.try_handle_pty(0, PtyEvent::Data(b"x"), false), None);
    assert_eq!(app.windows[0].screen.cursor(), (0, 0));
    assert_eq!(
        app.try_handle_pty(0, PtyEvent::Ready, false),
        Some(PtyStep::Read { changed: false })
    );
    app.handle_terminal_resize(host(24, 80));
    assert_eq!(
        app.try_handle_pty(0, PtyEvent::Data(b"x"), false),
        Some(PtyStep::Read { changed: true })
    );
    assert_eq!(app.windows[0].screen.cursor(), (0, 1));
}

#[test]
fn sizes() {
    assert_eq!(pty_rows(0), 0);
    assert_eq!(pty_rows(1), 1);
    assert_eq!(pty_rows(2), 1);
    assert_eq!(pty_rows(65535), 65534);
    assert_eq!(
        pty_size(5, 6),
        TerminalSize { ws_row: 5, ws_col: 6, ws_xpixel: 0, ws_ypixel: 0 }
    );
    let told = sync_terminal_size(TerminalSize {
        ws_row: 50,
        ws_col: 120,
        ws_xpixel: 800,
        ws_ypixel: 600,
    });
    assert_eq!(
        told,
        TerminalSize { ws_row: 49, ws_col: 120, ws_xpixel: 800, ws_ypixel: 600 }
    );
    assert_eq!(sync_terminal_size(host(1, 9)), host(1, 9));
}

#[test]
fn a_redraw_is_asked_for_when_the_shown_window_had_output() {
    let mut app = app(2);
    for (win_idx, expected) in [(0, LoopAction::Continue), (1, LoopAction::Redraw)] {
        let mut step = app.handle_pty(win_idx, PtyEvent::Ready, false);
        for event in [
            PtyEvent::Interrupted,
            PtyEvent::Data(b"one "),
            PtyEvent::Interrupted,
            PtyEvent::Data(b"two"),
            PtyEvent::WouldBlock,
        ] {
            let changed = match step {
                PtyStep::Read { changed } => changed,
                _ => panic!("not read"),
            };
            step = app.handle_pty(win_idx, event, changed);
        }
        assert_eq!(step, PtyStep::Rearm { key: win_idx + 1, action: expected });
        assert_eq!(
            app.windows[win_idx].screen.contents(),
            drawn(&[b"one ", b"two"], 23, 80)
        );
    }
}

#[test]
fn only_the_shown_window_is_told_of_a_resize() {
    let mut app = app(3);
    app.current_window_idx = 1;
    let now = TerminalSize { ws_row: 50, ws_col: 120, ws_xpixel: 800, ws_ypixel: 600 };
    let notice = app.handle_terminal_resize(now);
    let size = TerminalSize { ws_row: 49, ws_col: 120, ws_xpixel: 800, ws_ypixel: 600 };
    assert_eq!(notice, ResizeNotice { window: 1, size });
    assert_eq!(app.windows[1].screen.size(), (size.ws_row, size.ws_col));
    assert_eq!(
        app.handle_terminal_resize(host(1, 7)),
        ResizeNotice { window: 1, size: host(1, 7) }
    );
}

#[test]
fn screens_know_whether_they_can_be_drawn() {
    assert!(!Screen::new(3, 0).is_drawable());
    assert!(Screen::new(3, 1).is_drawable());
    assert!(Screen::new(1, 2).is_drawable());
    let mut ascii = Screen::new(3, 10);
    ascii.feed(b"plain");
    ascii.resize(3, 1);
    assert!(ascii.is_drawable());
    let mut parser = vt100::Parser::new(3, 10, 0);
    parser.process(b"plain");
    parser.screen_mut().set_size(3, 1);
    assert_eq!(ascii.contents(), parser.screen().contents_formatted());
}

#[test]
fn a_cut_character_can_spoil_a_single_column() {
    let mut screen = Screen::new(3, 10);
    screen.feed("\u{4e16}".as_bytes());
    screen.resize(3, 1);
    assert!(!screen.is_drawable());
    screen.resize(3, 10);
    assert!(screen.is_drawable());
    screen.feed("\x1b[2G\u{754c}\x1b[G\x1b[2P".as_bytes());
    assert!(screen.is_drawable());
    screen.resize(3, 1);
    screen.feed(b"\x1b[2;1Hx\x1b[A");
    assert_eq!(screen.cursor(), (0, 1));
    assert!(!screen.is_drawable());
    screen.resize(3, 2);
    assert!(screen.is_drawable());
    let mut parser = vt100::Parser::new(3, 10, 0);
    parser.process("\u{4e16}".as_bytes());
    parser.screen_mut().set_size(3, 1);
    parser.screen_mut().set_size(3, 10);
    parser.process("\x1b[2G\u{754c}\x1b[G\x1b[2P".as_bytes());
    parser.screen_mut().set_size(3, 1);
    parser.process(b"\x1b[2;1Hx\x1b[A");
    parser.screen_mut().set_size(3, 2);
    assert_eq!(screen.contents(), parser.screen().contents_formatted());
}
