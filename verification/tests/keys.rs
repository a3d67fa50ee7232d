use rust_mux::keys::StdinStep;
use rust_mux::mux::{KeyEffect, LoopAction, MuxApp, PtyWrite};
use rust_mux::size::TerminalSize;

fn host(ws_row: u16, ws_col: u16) -> TerminalSize {
    TerminalSize { ws_row, ws_col, ws_xpixel: 0, ws_ypixel: 0 }
}

fn app(windows: u32) -> MuxApp<u32> {
    let mut app = MuxApp::new(100, host(24, 80));
    for i in 1..windows {
        app.spawn_new_window(100 + i, host(24, 80));
    }
    app
}

fn write(window: usize, byte: u8) -> PtyWrite {
    PtyWrite { window, byte }
}

#[test]
fn a_new_multiplexer_shows_its_one_window() {
    let app = app(1);
    assert_eq!(app.windows.len(), 1);
    assert_eq!(app.windows[0].master, 100);
    assert!(!app.windows[0].bracketed_paste);
    assert_eq!(app.windows[0].screen.size(), (23, 80));
    assert_eq!(app.current_window_idx, 0);
    assert!(!app.prefix_mode);
    assert_eq!(app.next_key(), 2);
}

#[test]
fn a_spawned_window_is_the_last_one_and_is_shown() {
    let app = app(3);
    assert_eq!(app.windows.len(), 3);
    assert_eq!(app.current_window_idx, 2);
    assert_eq!(app.windows[2].master, 102);
    assert_eq!(app.next_key(), 4);
}

#[test]
fn a_single_host_row_is_left_to_the_window() {
    let app = MuxApp::new(0u8, host(1, 80));
    assert_eq!(app.windows[0].screen.size(), (1, 80));
}

#[test]
fn plain_keys_go_to_the_window_that_is_shown() {
    let mut app = app(2);
    let step = app.handle_stdin(Some(b"ls\r"), 0, LoopAction::Continue);
    assert_eq!(
        step,
        StdinStep::Done {
            writes: vec![write(1, b'l'), write(1, b's'), write(1, b'\r')],
            action: LoopAction::Continue,
        }
    );
    assert_eq!(app.current_window_idx, 1);
}

#[test]
fn an_empty_read_ends_the_loop() {
    let mut app = app(1);
    assert_eq!(app.handle_stdin(Some(b""), 0, LoopAction::Continue), StdinStep::Exit);
}

#[test]
fn a_failed_read_changes_nothing() {
    let mut app = app(1);
    let step = app.handle_stdin(None, 0, LoopAction::Continue);
    assert_eq!(step, StdinStep::Done { writes: vec![], action: LoopAction::Continue });
    assert!(!app.prefix_mode);
}

#[test]
fn the_prefix_key_waits_for_a_command() {
    let mut app = app(1);
    let step = app.handle_stdin(Some(b"\x02"), 0, LoopAction::Continue);
    assert_eq!(step, StdinStep::Done { writes: vec![], action: LoopAction::Redraw });
    assert!(app.prefix_mode);
    let step = app.handle_stdin(Some(b"x"), 0, LoopAction::Continue);
    assert_eq!(step, StdinStep::Done { writes: vec![], action: LoopAction::Redraw });
    assert!(!app.prefix_mode);
}

#[test]
fn the_prefix_key_twice_is_sent_once() {
    let mut app = app(1);
    let step = app.handle_stdin(Some(b"\x02\x02"), 0, LoopAction::Continue);
    assert_eq!(step, StdinStep::Done { writes: vec![write(0, 2)], action: LoopAction::Redraw });
    assert!(!app.prefix_mode);
}

#[test]
fn next_and_previous_go_round() {
    let mut app = app(3);
    app.handle_stdin(Some(b"\x02n"), 0, LoopAction::Continue);
    assert_eq!(app.current_window_idx, 0);
    app.handle_stdin(Some(b"\x02n"), 0, LoopAction::Continue);
    assert_eq!(app.current_window_idx, 1);
    app.handle_stdin(Some(b"\x02p\x02p"), 0, LoopAction::Continue);
    assert_eq!(app.current_window_idx, 2);
    app.handle_stdin(Some(b"\x02n\x02n\x02n"), 0, LoopAction::Continue);
    assert_eq!(app.current_window_idx, 2);
}

#[test]
fn with_one_window_next_and_previous_stay() {
    let mut app = app(1);
    app.handle_stdin(Some(b"\x02n\x02p"), 0, LoopAction::Continue);
    assert_eq!(app.current_window_idx, 0);
}

#[test]
fn commands_count_only_after_the_prefix_key() {
    let mut app = app(2);
    let step = app.handle_stdin(Some(b"cnp"), 0, LoopAction::Continue);
    assert_eq!(
        step,
        StdinStep::Done {
            writes: vec![write(1, b'c'), write(1, b'n'), write(1, b'p')],
            action: LoopAction::Continue,
        }
    );
}

#[test]
fn a_spawn_stops_in_the_middle_and_goes_on() {
    let mut app = app(1);
    let input: &[u8] = b"a\x02cb\x02px";
    let step = app.handle_stdin(Some(input), 0, LoopAction::Continue);
    assert_eq!(
        step,
        StdinStep::Spawn { writes: vec![write(0, b'a')], next: 3, action: LoopAction::Redraw }
    );
    assert!(!app.prefix_mode);
    app.spawn_new_window(101, host(24, 80));
    let step = app.handle_stdin(Some(input), 3, LoopAction::Redraw);
    assert_eq!(
        step,
        StdinStep::Done {
            writes: vec![write(1, b'b'), write(0, b'x')],
            action: LoopAction::Redraw,
        }
    );
    assert_eq!(app.current_window_idx, 0);
}

#[test]
fn a_spawn_by_the_last_key_leaves_nothing_to_go_on_with() {
    let mut app = app(1);
    let step = app.handle_stdin(Some(b"\x02c"), 0, LoopAction::Continue);
    assert_eq!(step, StdinStep::Spawn { writes: vec![], next: 2, action: LoopAction::Redraw });
    let step = app.handle_stdin(Some(b"\x02c"), 2, LoopAction::Redraw);
    assert_eq!(step, StdinStep::Done { writes: vec![], action: LoopAction::Redraw });
}

#[test]
fn keys_in_pieces_do_what_they_do_at_once() {
    let mut whole = app(3);
    let mut pieces = app(3);
    whole.handle_stdin(Some(b"ab\x02nc"), 0, LoopAction::Continue);
    pieces.handle_stdin(Some(b"ab\x02"), 0, LoopAction::Continue);
    let step = pieces.handle_stdin(Some(b"nc"), 0, LoopAction::Continue);
    assert_eq!(
        step,
        StdinStep::Done { writes: vec![write(0, b'c')], action: LoopAction::Redraw }
    );
    assert_eq!(whole.current_window_idx, pieces.current_window_idx);
}

#[test]
fn single_keys() {
    let mut app = app(1);
    assert_eq!(app.handle_key(0), KeyEffect::Forward(write(0, 0)));
    assert_eq!(app.handle_key(2), KeyEffect::Done);
    assert_eq!(app.handle_key(b'c'), KeyEffect::Spawn);
    assert_eq!(app.handle_key(b'c'), KeyEffect::Forward(write(0, b'c')));
    assert_eq!(app.handle_key(255), KeyEffect::Forward(write(0, 255)));
}

/// Types `input`, opening windows with the handles in `fresh`, and returns what was sent.
fn type_all(app: &mut MuxApp<u32>, input: &[u8], fresh: &mut Vec<u32>) -> Vec<PtyWrite> {
    let mut sent = Vec::new();
    let mut step = app.handle_stdin(Some(input), 0, LoopAction::Continue);
    loop {
        match step {
            StdinStep::Spawn { writes, next, action } => {
                sent.extend(writes);
                app.spawn_new_window(fresh.remove(0), host(24, 80));
                step = app.handle_stdin(Some(input), next, action);
            }
            StdinStep::Done { writes, .. } => {
                sent.extend(writes);
                return sent;
            }
            StdinStep::Exit => return sent,
        }
    }
}

#[test]
fn reads_that_open_windows_can_be_split_anywhere() {
    let input: &[u8] = b"a\x02cb\x02c\x02pd\x02\x02\x02ne";
    let mut whole = app(1);
    let sent = type_all(&mut whole, input, &mut vec![7, 8]);
    assert_eq!(
        sent,
        vec![write(0, b'a'), write(1, b'b'), write(1, b'd'), write(1, 2), write(2, b'e')]
    );
    for at in 1..input.len() {
        let mut pieces = app(1);
        let mut fresh = vec![7, 8];
        let mut both = type_all(&mut pieces, &input[..at], &mut fresh);
        both.extend(type_all(&mut pieces, &input[at..], &mut fresh));
        assert_eq!(both, sent);
        assert!(fresh.is_empty());
        assert_eq!(pieces.current_window_idx, whole.current_window_idx);
        assert_eq!(pieces.prefix_mode, whole.prefix_mode);
        let masters: Vec<u32> = pieces.windows.iter().map(|w| w.master).collect();
        assert_eq!(masters, vec![100, 7, 8]);
    }
}
