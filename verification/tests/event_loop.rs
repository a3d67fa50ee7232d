use rust_mux::mux::{LoopAction, MuxApp, ResizeNotice, STDIN_KEY};
use rust_mux::run::{route_event, EventSource, RunCommand, RunEvent, RunStep, WaitOutcome};
use rust_mux::size::TerminalSize;

fn host(ws_row: u16, ws_col: u16) -> TerminalSize {
    TerminalSize { ws_row, ws_col, ws_xpixel: 0, ws_ypixel: 0 }
}

fn step(changed: bool, command: RunCommand) -> RunStep {
    RunStep { changed, command }
}

#[test]
fn the_loop_starts_by_watching_and_drawing() {
    let mut app = MuxApp::new((), host(24, 80));
    assert_eq!(
        app.run(false, RunEvent::Started),
        step(false, RunCommand::Register { window_key: Some(1) })
    );
    assert_eq!(app.run(false, RunEvent::Registered), step(false, RunCommand::Draw));
    assert_eq!(app.run(false, RunEvent::Drawn), step(false, RunCommand::CheckResize));
}

#[test]
fn without_a_window_only_standard_input_is_watched() {
    let mut app = MuxApp::new((), host(24, 80));
    app.close_window(0);
    assert_eq!(
        app.run(false, RunEvent::Started),
        step(false, RunCommand::Register { window_key: None })
    );
}

#[test]
fn a_resize_is_taken_in_and_drawn() {
    let mut app = MuxApp::new((), host(24, 80));
    assert_eq!(
        app.run(false, RunEvent::ResizeChecked(Some(host(40, 100)))),
        step(true, RunCommand::Tell(ResizeNotice { window: 0, size: host(39, 100) }))
    );
    assert_eq!(app.windows[0].screen.size(), (39, 100));
    assert_eq!(app.run(true, RunEvent::Told), step(true, RunCommand::Wait));
    assert_eq!(
        app.run(true, RunEvent::Waited(WaitOutcome::Ready)),
        step(true, RunCommand::NextEvent)
    );
    assert_eq!(app.run(true, RunEvent::BatchDone), step(false, RunCommand::Draw));
}

#[test]
fn an_idle_round_draws_nothing() {
    let mut app = MuxApp::new((), host(24, 80));
    assert_eq!(app.run(true, RunEvent::ResizeChecked(None)), step(false, RunCommand::Wait));
    assert_eq!(
        app.run(false, RunEvent::Waited(WaitOutcome::Ready)),
        step(false, RunCommand::NextEvent)
    );
    assert_eq!(app.run(false, RunEvent::BatchDone), step(false, RunCommand::CheckResize));
}

#[test]
fn an_interrupted_wait_starts_over() {
    let mut app = MuxApp::new((), host(24, 80));
    assert_eq!(
        app.run(true, RunEvent::Waited(WaitOutcome::Interrupted)),
        step(false, RunCommand::CheckResize)
    );
    assert_eq!(
        app.run(true, RunEvent::Waited(WaitOutcome::Failed)),
        step(true, RunCommand::Fail)
    );
}

#[test]
fn events_go_where_their_key_says() {
    let mut app = MuxApp::new((), host(24, 80));
    assert_eq!(route_event(STDIN_KEY), EventSource::Stdin);
    assert_eq!(route_event(1), EventSource::Pty(0));
    assert_eq!(route_event(usize::MAX), EventSource::Pty(usize::MAX - 1));
    assert_eq!(
        app.run(false, RunEvent::Polled(0)),
        step(false, RunCommand::Serve(EventSource::Stdin))
    );
    assert_eq!(
        app.run(true, RunEvent::Polled(3)),
        step(true, RunCommand::Serve(EventSource::Pty(2)))
    );
}

#[test]
fn one_redraw_in_a_batch_is_enough() {
    let mut app = MuxApp::new((), host(24, 80));
    let mut now = app.run(false, RunEvent::Waited(WaitOutcome::Ready));
    for action in [LoopAction::Continue, LoopAction::Redraw, LoopAction::Continue] {
        now = app.run(now.changed, RunEvent::Served(action));
        assert_eq!(now.command, RunCommand::NextEvent);
    }
    assert_eq!(app.run(now.changed, RunEvent::BatchDone), step(false, RunCommand::Draw));
}

#[test]
fn an_exit_leaves_the_loop() {
    let mut app = MuxApp::new((), host(24, 80));
    assert_eq!(
        app.run(true, RunEvent::Served(LoopAction::Exit)),
        step(true, RunCommand::Stop)
    );
    assert_eq!(
        app.run(false, RunEvent::Served(LoopAction::Exit)),
        step(false, RunCommand::Stop)
    );
}

#[test]
fn any_failure_leaves_the_loop() {
    let mut app = MuxApp::new((), host(24, 80));
    assert_eq!(app.run(true, RunEvent::Failed), step(true, RunCommand::Fail));
    assert_eq!(app.run(false, RunEvent::Failed), step(false, RunCommand::Fail));
}

#[test]
fn a_round_takes_in_one_resize_and_waits_once() {
    for (found, expected_waits, expected_tells) in [(Some(host(40, 100)), 1, 1), (None, 1, 0)] {
        let mut app = MuxApp::new((), host(24, 80));
        let mut now = app.run(true, RunEvent::ResizeChecked(found));
        let mut keys = vec![1, 1];
        let mut waits = 0;
        let mut tells = 0;
        while now.command != RunCommand::CheckResize {
            let event = match now.command {
                RunCommand::Tell(_) => {
                    assert_eq!(waits, 0);
                    tells += 1;
                    RunEvent::Told
                }
                RunCommand::Wait => {
                    waits += 1;
                    RunEvent::Waited(WaitOutcome::Ready)
                }
                RunCommand::NextEvent => match keys.pop() {
                    Some(key) => RunEvent::Polled(key),
                    None => RunEvent::BatchDone,
                },
                RunCommand::Serve(_) => RunEvent::Served(LoopAction::Redraw),
                RunCommand::Draw => RunEvent::Drawn,
                _ => panic!("not in a round"),
            };
            now = app.run(now.changed, event);
        }
        assert_eq!((waits, tells), (expected_waits, expected_tells));
        let size = if found.is_some() { (39, 100) } else { (23, 80) };
        assert_eq!(app.windows[0].screen.size(), size);
    }
}
