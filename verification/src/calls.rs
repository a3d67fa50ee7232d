//! What a call does, said of its arguments and its result: a call that was made with these
//! arguments and gave this result had this effect. Nothing here is about how it is done.
use vstd::prelude::*;
use vstd::utf8::encode_utf8;

use crate::bytes::{
    contains_bytes, law_occurs_between, occurs, paste_off, paste_on, scan_paste_mode,
};
use crate::draw::{
    compose_frame, compose_status_bar, decimal, law_home_sequence, law_status_bar_shows_the_state,
    law_the_shown_window_is_drawn, move_to, status_bar, tabs,
};
use crate::keys::{law_steps_make_up_a_read, law_what_a_key_does, StdinStep};
use crate::mux::{
    law_output_is_one_operation, KeyEffect, LoopAction, MuxApp, PtyWrite, ResizeNotice,
    NEW_WINDOW_KEY, NEXT_WINDOW_KEY, PREFIX_KEY, PREVIOUS_WINDOW_KEY,
};
use crate::output::{
    flush_stdout_blocking, law_writing_goes_on, left_by, possible, write_stdout_blocking,
    FlushEvent, FlushStep, WriteEvent, WriteStep,
};
use crate::pty::{ClosedWindow, PtyEvent, PtyStep};
use crate::run::{route_event, EventSource, RunEvent, RunStep};
use crate::screen::{
    cursor_cell, drawable, feedable, log_cols, log_rows, rendered, Screen, ScreenOp,
};
use crate::size::{pty_rows, pty_size, sync_terminal_size, TerminalSize};
use crate::sys::{set_nonblocking, shell_path};

verus! {

/// A multiplexer that was just made has one window, with the terminal that it was given and a
/// screen that was only just made. That window is shown, and no command is being typed.
pub proof fn law_new_call<H>(master: H, host: TerminalSize, app: MuxApp<H>)
    requires
        call_ensures(MuxApp::<H>::new, (master, host), app),
    ensures
        app.windows@.len() == 1,
        app.windows@[0].master == master,
        !app.windows@[0].bracketed_paste,
        app.windows@[0].screen@.len() == 1,
        app.windows@[0].screen@[0] matches ScreenOp::Opened { rows, cols, scrollback } && {
            &&& rows == host.ws_row - if host.ws_row > 1 {
                1int
            } else {
                0
            }
            &&& cols == host.ws_col
            &&& scrollback == 0
        },
        app.current_window_idx == 0,
        !app.prefix_mode,
{
    assert(app@.windows[0] == app.windows@[0]@);
}

/// Opening a window puts one with that terminal and a screen that was only just made behind the
/// others, and shows it. The others stay as they were.
pub proof fn law_spawn_new_window_call<H>(
    app: &mut MuxApp<H>,
    master: H,
    host: TerminalSize,
    i: int,
)
    requires
        call_ensures(MuxApp::<H>::spawn_new_window, (app, master, host), ()),
    ensures
        ({
            let n = old(app).windows@.len();
            let last = final(app).windows@.last();
            &&& final(app).windows@.len() == n + 1
            &&& 0 <= i < n ==> final(app).windows@[i]@ == old(app).windows@[i]@
            &&& last.master == master
            &&& !last.bracketed_paste
            &&& last.screen@.len() == 1
            &&& last.screen@[0] matches ScreenOp::Opened { rows, cols, scrollback } && {
                &&& rows == host.ws_row - if host.ws_row > 1 {
                    1int
                } else {
                    0
                }
                &&& cols == host.ws_col
                &&& scrollback == 0
            }
            &&& final(app).current_window_idx == n
            &&& final(app).prefix_mode == old(app).prefix_mode
        }),
{
    let n = old(app).windows@.len() as int;
    assert(final(app)@.windows.len() == n + 1);
    if 0 <= i < n {
        assert(final(app)@.windows[i] == old(app)@.windows[i]);
    }
    assert(final(app)@.windows[n] == final(app).windows@[n]@);
}

/// The next window is watched under the number of windows plus one.
pub proof fn law_next_key_call<H>(app: &MuxApp<H>, key: usize)
    requires
        call_ensures(MuxApp::<H>::next_key, (app,), key),
    ensures
        key == app.windows@.len() + 1,
{
}

/// Closing a window takes it out and leaves the others as they were, in their order. The index of
/// the window that is shown stays if a window is left at it, and becomes that of the last one if
/// not. The result is about the terminal of the window, says whether it was the last one, and
/// holds the keys of the windows that are left.
pub proof fn law_close_window_call<H>(
    app: &mut MuxApp<H>,
    win_idx: usize,
    window: ClosedWindow<H>,
    j: int,
)
    requires
        call_ensures(MuxApp::<H>::close_window, (app, win_idx), window),
        win_idx < old(app).windows@.len() <= usize::MAX,
        0 <= j < old(app).windows@.len(),
    ensures
        ({
            let n = old(app).windows@.len();
            let shown = old(app).current_window_idx;
            &&& final(app).windows@.len() == n - 1
            &&& j < win_idx ==> final(app).windows@[j]@ == old(app).windows@[j]@
            &&& j > win_idx ==> final(app).windows@[j - 1]@ == old(app).windows@[j]@
            &&& shown + 1 < n ==> final(app).current_window_idx == shown
            &&& n > 1 && shown + 1 >= n ==> final(app).current_window_idx == n - 2
            &&& final(app).prefix_mode == old(app).prefix_mode
            &&& window.master == old(app).windows@[win_idx as int].master
            &&& window.last <==> n == 1
            &&& window.keys@.len() == n - 1
            &&& j < n - 1 ==> window.keys@[j] == j + 1
        }),
{
    let n = old(app).windows@.len() as int;
    assert(old(app)@.windows[win_idx as int] == old(app).windows@[win_idx as int]@);
    assert(final(app)@.windows.len() == n - 1);
    if j < win_idx {
        assert(final(app)@.windows[j] == old(app)@.windows[j]);
    }
    if j > win_idx {
        assert(final(app)@.windows[j - 1] == old(app)@.windows[j]);
    }
}

/// A resize of the host is one operation on every screen, to the width of the host and its height
/// but for the row of the status bar, and changes nothing else. The window that is shown is to be
/// told that size, with the pixel sizes of the host.
pub proof fn law_handle_terminal_resize_call<H>(
    app: &mut MuxApp<H>,
    host: TerminalSize,
    notice: ResizeNotice,
    i: int,
)
    requires
        call_ensures(MuxApp::<H>::handle_terminal_resize, (app, host), notice),
        0 <= i < old(app).windows@.len(),
    ensures
        ({
            let before = old(app).windows@[i];
            let after = final(app).windows@[i];
            &&& final(app).windows@.len() == old(app).windows@.len()
            &&& after.screen@.len() == before.screen@.len() + 1
            &&& after.screen@.drop_last() == before.screen@
            &&& after.screen@.last() == ScreenOp::Resized {
                rows: notice.size.ws_row,
                cols: host.ws_col,
            }
            &&& after.master == before.master
            &&& after.bracketed_paste == before.bracketed_paste
            &&& final(app).current_window_idx == old(app).current_window_idx
            &&& final(app).prefix_mode == old(app).prefix_mode
            &&& notice.window == old(app).current_window_idx
            &&& notice.size.ws_row == host.ws_row - if host.ws_row > 1 {
                1int
            } else {
                0
            }
            &&& notice.size.ws_col == host.ws_col
            &&& notice.size.ws_xpixel == host.ws_xpixel
            &&& notice.size.ws_ypixel == host.ws_ypixel
        }),
{
    assert(final(app)@.windows.len() == old(app)@.windows.len());
    assert(final(app)@.windows[i] == final(app).windows@[i]@);
    assert(old(app)@.windows[i] == old(app).windows@[i]@);
    assert(final(app).windows@[i].screen@.drop_last() =~= old(app).windows@[i].screen@);
}

/// A key changes no window. The prefix key begins a command, and the next key ends it. Outside a
/// command every other key is sent to the window that is shown; as a command, the prefix key is.
/// The command for a new window asks for one, however many there are. Those for the next and the
/// previous window show it, counted round the ends.
pub proof fn law_handle_key_call<H>(app: &mut MuxApp<H>, key: u8, effect: KeyEffect, i: int)
    requires
        call_ensures(MuxApp::<H>::handle_key, (app, key), effect),
        old(app).current_window_idx < old(app).windows@.len(),
        0 <= i < old(app).windows@.len(),
    ensures
        ({
            let n = old(app).windows@.len();
            let shown = old(app).current_window_idx;
            let now = final(app).current_window_idx;
            let command = old(app).prefix_mode;
            &&& final(app).windows@.len() == n
            &&& final(app).windows@[i]@ == old(app).windows@[i]@
            &&& final(app).prefix_mode <==> !command && key == PREFIX_KEY
            &&& effect is Spawn <==> command && key == NEW_WINDOW_KEY
            &&& effect is Forward <==> (command <==> key == PREFIX_KEY)
            &&& effect matches KeyEffect::Forward(write) ==> write.window == shown && write.byte
                == key
            &&& command && key == NEXT_WINDOW_KEY ==> now == if shown + 1 == n {
                0
            } else {
                shown + 1
            }
            &&& command && key == PREVIOUS_WINDOW_KEY ==> now == if shown == 0 {
                n - 1
            } else {
                shown - 1
            }
            &&& !command || key != NEXT_WINDOW_KEY && key != PREVIOUS_WINDOW_KEY ==> now == shown
        }),
{
    law_what_a_key_does(old(app)@, key);
    assert(final(app)@.windows.len() == old(app).windows@.len());
    assert(final(app)@.windows[i] == old(app)@.windows[i]);
}

/// A read of standard input is handled as its keys say, and a read that failed changes nothing.
pub proof fn law_handle_stdin_call<H>(
    app: &mut MuxApp<H>,
    read: Option<&[u8]>,
    from: usize,
    action: LoopAction,
    step: StdinStep,
    fresh: Seq<(H, TerminalSize)>,
)
    requires
        call_ensures(MuxApp::<H>::handle_stdin, (app, read, from, action), step),
        read matches Some(keys) ==> from <= keys@.len(),
    ensures
        step is Exit <==> (read matches Some(keys) && keys@.len() == 0),
        read is None ==> final(app)@ == old(app)@ && (step matches StdinStep::Done {
            writes,
            action: reached,
        } && writes@ == Seq::<PtyWrite>::empty() && reached == action),
        read matches Some(keys) ==> (step matches StdinStep::Spawn { writes, next, action: reached }
            ==> {
            let typed = old(app)@.typed(keys@.subrange(from as int, next as int), fresh);
            &&& from < next <= keys@.len()
            &&& typed.state == final(app)@.spawned(fresh[0].0, fresh[0].1)
            &&& typed.writes == writes@
            &&& typed.opened == 1
            &&& reached is Redraw
        }),
        read matches Some(keys) ==> (step matches StdinStep::Done { writes, action: reached } ==> {
            let taken = keys@.subrange(from as int, keys@.len() as int);
            let typed = old(app)@.typed(taken, fresh);
            &&& typed.state == final(app)@
            &&& typed.writes == writes@
            &&& typed.opened == 0
            &&& reached == if taken.len() > 0 && (old(app).prefix_mode || taken.contains(
                PREFIX_KEY,
            )) {
                LoopAction::Redraw
            } else {
                action
            }
        }),
{
    if let Some(keys) = read {
        law_steps_make_up_a_read(
            old(app)@,
            keys@,
            from as int,
            action,
            step,
            final(app)@,
            fresh,
        );
    }
}

/// An event on a terminal. One of no window does nothing. Output goes through the screen of its
/// window in one operation, exactly as it is, and touches no other window; it is a change if the
/// window is shown. The end of a program closes its window. What is left over is to read on, or to
/// watch the window again under its key.
pub proof fn law_handle_pty_call<H>(
    app: &mut MuxApp<H>,
    win_idx: usize,
    event: PtyEvent,
    changed: bool,
    step: PtyStep<H>,
    j: int,
)
    requires
        call_ensures(MuxApp::<H>::handle_pty, (app, win_idx, event, changed), step),
        win_idx < usize::MAX,
        old(app).windows@.len() <= usize::MAX,
    ensures
        ({
            let n = old(app).windows@.len();
            let known = win_idx < n;
            let shown = old(app).current_window_idx;
            let i = win_idx as int;
            &&& step is Ignore <==> !known
            &&& step is Closed <==> known && (event is Gone || (event matches PtyEvent::Data(bytes)
                && bytes@.len() == 0))
            &&& !(step is Closed) && !(event is Data) || step is Ignore ==> final(app)@ == old(app)@
            &&& !(step is Closed) ==> final(app).windows@.len() == n
            &&& !(step is Closed) ==> final(app).current_window_idx == shown
            &&& final(app).prefix_mode == old(app).prefix_mode
            &&& known && (event is Ready || event is Interrupted) ==> step == (PtyStep::<H>::Read {
                changed,
            })
            &&& known && (event is WouldBlock || event is Failed) ==> (step matches PtyStep::Rearm {
                key,
                action,
            } && key == win_idx + 1 && (action is Redraw <==> changed) && (action is Continue
                <==> !changed))
            &&& known ==> (event matches PtyEvent::Data(bytes) ==> bytes@.len() > 0 ==> {
                let before = old(app).windows@[i];
                let after = final(app).windows@[i];
                &&& step == (PtyStep::<H>::Read { changed: changed || win_idx == shown })
                &&& after.screen@.len() == before.screen@.len() + 1
                &&& after.screen@.drop_last() == before.screen@
                &&& after.screen@.last() == ScreenOp::Fed { bytes: bytes@ }
                &&& after.master == before.master
                &&& after.bracketed_paste <==> occurs(bytes@, paste_on())
                    || before.bracketed_paste && !occurs(bytes@, paste_off())
                &&& 0 <= j < n && j != i ==> final(app).windows@[j]@ == old(app).windows@[j]@
            })
            &&& step matches PtyStep::Closed { window, action } ==> {
                &&& final(app)@ == old(app)@.closed(i)
                &&& window.master == old(app).windows@[i].master
                &&& window.last <==> n == 1
                &&& window.keys@.len() == n - 1
                &&& 0 <= j < n - 1 ==> window.keys@[j] == j + 1
                &&& action is Exit <==> n == 1
                &&& action is Redraw <==> n > 1
            }
        }),
{
    let n = old(app).windows@.len() as int;
    let i = win_idx as int;
    assert(old(app)@.windows.len() == n);
    assert(final(app)@.windows.len() == final(app).windows@.len());
    if i < n {
        assert(old(app)@.windows[i] == old(app).windows@[i]@);
        if let PtyEvent::Data(bytes) = event {
            if bytes@.len() > 0 {
                law_output_is_one_operation(old(app)@, i, bytes@, i);
                assert(final(app)@.windows[i] == final(app).windows@[i]@);
                if 0 <= j < n {
                    law_output_is_one_operation(old(app)@, i, bytes@, j);
                    assert(final(app)@.windows[j] == final(app).windows@[j]@);
                    assert(old(app)@.windows[j] == old(app).windows@[j]@);
                }
            }
        }
    }
}

/// Trying to handle an event does what handling it does, or nothing at all: nothing only where the
/// event brings output for a screen that does not take everything.
pub proof fn law_try_handle_pty_call<H>(
    app: &mut MuxApp<H>,
    win_idx: usize,
    event: PtyEvent,
    changed: bool,
    step: Option<PtyStep<H>>,
)
    requires
        call_ensures(MuxApp::<H>::try_handle_pty, (app, win_idx, event, changed), step),
    ensures
        step is None <==> (event matches PtyEvent::Data(bytes) && {
            &&& bytes@.len() > 0
            &&& win_idx < old(app).windows@.len()
            &&& !feedable(old(app).windows@[win_idx as int].screen@)
        }),
        step is None ==> *final(app) == *old(app),
        step matches Some(step) ==> old(app)@.pty_step(
            win_idx as int,
            event,
            changed,
            step,
            final(app)@,
        ),
{
    if win_idx < old(app).windows@.len() {
        assert(old(app)@.windows[win_idx as int] == old(app).windows@[win_idx as int]@);
    }
}

/// A step of the event loop is the one that follows the event, and changes the multiplexer only
/// where the host was resized.
pub proof fn law_run_call<H>(app: &mut MuxApp<H>, changed: bool, event: RunEvent, step: RunStep)
    requires
        call_ensures(MuxApp::<H>::run, (app, changed, event), step),
    ensures
        step == old(app)@.run_step(changed, event),
        event matches RunEvent::ResizeChecked(Some(host)) ==> final(app)@ == old(app)@.resized(
            (host.ws_row - if host.ws_row > 1 {
                1int
            } else {
                0
            }) as u16,
            host.ws_col,
        ),
        !(event matches RunEvent::ResizeChecked(found) && found is Some) ==> final(app)@
            == old(app)@,
{
}

/// The key of standard input is zero; any other is that of the window before it.
pub proof fn law_route_event_call(key: usize, source: EventSource)
    requires
        call_ensures(route_event, (key,), source),
    ensures
        source is Stdin <==> key == 0,
        source matches EventSource::Pty(win_idx) ==> win_idx + 1 == key,
{
}

/// What is drawn is the window that is shown: the sequence for its paste mode, the move to the top
/// left corner, all that its screen renders, the move to the last row of the host, the bar, and
/// the move to its cursor; nothing is missing and nothing is between.
pub proof fn law_draw_interface_call<H>(app: &MuxApp<H>, host: TerminalSize, frame: Vec<u8>)
    requires
        call_ensures(MuxApp::<H>::draw_interface, (app, host), frame),
        app.current_window_idx < app.windows@.len(),
    ensures
        ({
            let shown = app.windows@[app.current_window_idx as int];
            let cursor = cursor_cell(shown.screen@);
            frame@ == (if shown.bracketed_paste {
                paste_on()
            } else {
                paste_off()
            }) + seq![0x1bu8, 0x5b, 0x48] + rendered(shown.screen@) + move_to(
                host.ws_row as nat,
                1,
            ) + status_bar(
                app.windows@.len(),
                app.current_window_idx as int,
                app.prefix_mode,
                host,
            ) + move_to((cursor.0 + 1) as nat, (cursor.1 + 1) as nat)
        }),
{
    law_the_shown_window_is_drawn(app@, host);
    let shown = app.windows@[app.current_window_idx as int];
    assert(app@.windows[app@.current] == shown@);
    law_home_sequence();
}

/// A frame holds its parts whole, once and in order, whatever they are.
pub proof fn law_compose_frame_call(
    bracketed_paste: bool,
    contents: &[u8],
    cursor: (u16, u16),
    bar: &[u8],
    host: TerminalSize,
    frame: Vec<u8>,
)
    requires
        call_ensures(compose_frame, (bracketed_paste, contents, cursor, bar, host), frame),
    ensures
        frame@ == (if bracketed_paste {
            paste_on()
        } else {
            paste_off()
        }) + seq![0x1bu8, 0x5b, 0x48] + contents@ + move_to(host.ws_row as nat, 1) + bar@ + move_to(
            (cursor.0 + 1) as nat,
            (cursor.1 + 1) as nat,
        ),
{
    law_home_sequence();
}

/// The status bar shows a tab for each window and the size of the host, and a badge before them
/// while a command is being typed.
pub proof fn law_compose_status_bar_call(
    windows: usize,
    current: usize,
    prefix_mode: bool,
    host: TerminalSize,
    bar: Vec<u8>,
)
    requires
        call_ensures(compose_status_bar, (windows, current, prefix_mode, host), bar),
    ensures
        ({
            let name = encode_utf8("\x1b[48;5;236m\x1b[38;5;255m \u{1f980} RUST-MUX |"@);
            let badge = encode_utf8(" \x1b[48;5;160m\x1b[38;5;255m [PREFIX] \x1b[48;5;236m"@);
            bar@ == (if prefix_mode {
                name + badge
            } else {
                name
            }) + encode_utf8(" Tabs:"@) + tabs(windows as nat, current as int) + encode_utf8(
                " | Grid: "@,
            ) + decimal(host.ws_row as nat) + encode_utf8("x"@) + decimal(host.ws_col as nat)
                + encode_utf8(" \x1b[K\x1b[0m"@)
        }),
{
    law_status_bar_shows_the_state(windows as nat, current as int, prefix_mode, host);
}

/// A byte string is found if and only if the other one is made of it with something before and
/// something behind.
pub proof fn law_contains_bytes_call(hay: &[u8], needle: &[u8], found: bool)
    requires
        call_ensures(contains_bytes, (hay, needle), found),
    ensures
        found <==> exists|before: Seq<u8>, behind: Seq<u8>| #[trigger]
            (before + needle@ + behind) == hay@,
{
    law_occurs_between(hay@, needle@);
}

/// Bracketed paste is on after output that turns it on, and after output that does not turn it off
/// if it was on.
pub proof fn law_scan_paste_mode_call(before: bool, output: &[u8], on: bool)
    requires
        call_ensures(scan_paste_mode, (before, output), on),
    ensures
        on <==> occurs(output@, paste_on()) || before && !occurs(output@, paste_off()),
{
}

/// The window has all rows of the host but the last, or all if there is only one.
pub proof fn law_pty_rows_call(host_rows: u16, rows: u16)
    requires
        call_ensures(pty_rows, (host_rows,), rows),
    ensures
        host_rows > 1 ==> rows + 1 == host_rows,
        host_rows <= 1 ==> rows == host_rows,
{
}

/// A program starts with these rows and columns and without pixel sizes.
pub proof fn law_pty_size_call(rows: u16, cols: u16, size: TerminalSize)
    requires
        call_ensures(pty_size, (rows, cols), size),
    ensures
        size.ws_row == rows,
        size.ws_col == cols,
        size.ws_xpixel == 0,
        size.ws_ypixel == 0,
{
}

/// A program is told the size of the host, without the row of the status bar.
pub proof fn law_sync_terminal_size_call(host: TerminalSize, size: TerminalSize)
    requires
        call_ensures(sync_terminal_size, (host,), size),
    ensures
        host.ws_row > 1 ==> size.ws_row + 1 == host.ws_row,
        host.ws_row <= 1 ==> size.ws_row == host.ws_row,
        size.ws_col == host.ws_col,
        size.ws_xpixel == host.ws_xpixel,
        size.ws_ypixel == host.ws_ypixel,
{
}

/// A window runs the program that the environment names, unless it names none or its name holds a
/// NUL character.
pub proof fn law_shell_path_call(shell: Option<String>, path: String)
    requires
        call_ensures(shell_path, (shell,), path),
    ensures
        shell matches Some(name) ==> !name@.contains('\0') ==> path@ == name@,
        shell matches Some(name) ==> name@.contains('\0') ==> path@ == "/bin/sh"@,
        shell is None ==> path@ == "/bin/sh"@,
{
}

/// The named flags are kept, and the one for non-blocking is set.
pub proof fn law_set_nonblocking_call(flags: i32, named: i32, nonblock: i32, all: i32)
    requires
        call_ensures(set_nonblocking, (flags, named, nonblock), all),
    ensures
        all == (flags & named) | nonblock,
{
}

/// Writing goes on with exactly the bytes that were not written yet.
pub proof fn law_write_stdout_blocking_call(data: &[u8], event: WriteEvent, step: WriteStep)
    requires
        call_ensures(write_stdout_blocking, (data, event), step),
        possible(data@, event),
    ensures
        event matches WriteEvent::Wrote(n) ==> n > 0 ==> data@ == data@.take(n as int) + left_by(
            step,
        ),
        event is Started || event is Interrupted || event is WouldBlock ==> data@ == left_by(step),
        step is Fail <==> event is Failed,
        step is WriteZero <==> event == WriteEvent::Wrote(0),
        step is YieldThenWrite <==> event is WouldBlock,
{
    law_writing_goes_on(data@, event, step);
}

/// A flush is done again until it succeeded or failed.
pub proof fn law_flush_stdout_blocking_call(event: FlushEvent, step: FlushStep)
    requires
        call_ensures(flush_stdout_blocking, (event,), step),
    ensures
        step is Finished <==> event is Flushed,
        step is Fail <==> event is Failed,
        step is YieldThenFlush <==> event is WouldBlock,
        step is Flush <==> event is Interrupted,
{
}

/// A screen that was just made has gone through nothing else.
pub proof fn law_screen_new_call(rows: u16, cols: u16, screen: Screen)
    requires
        call_ensures(Screen::new, (rows, cols), screen),
    ensures
        screen@.len() == 1,
        screen@[0] == (ScreenOp::Opened { rows, cols, scrollback: 0 }),
{
}

/// Output is one operation on a screen, with just those bytes; what was before stays.
pub proof fn law_screen_feed_call(screen: &mut Screen, bytes: &[u8])
    requires
        call_ensures(Screen::feed, (screen, bytes), ()),
    ensures
        final(screen)@.len() == old(screen)@.len() + 1,
        final(screen)@.drop_last() == old(screen)@,
        final(screen)@.last() == (ScreenOp::Fed { bytes: bytes@ }),
{
    assert(final(screen)@.drop_last() =~= old(screen)@);
}

/// A resize is one operation on a screen, to just that size; what was before stays.
pub proof fn law_screen_resize_call(screen: &mut Screen, rows: u16, cols: u16)
    requires
        call_ensures(Screen::resize, (screen, rows, cols), ()),
    ensures
        final(screen)@.len() == old(screen)@.len() + 1,
        final(screen)@.drop_last() == old(screen)@,
        final(screen)@.last() == (ScreenOp::Resized { rows, cols }),
        log_rows(final(screen)@) == rows,
        log_cols(final(screen)@) == cols,
{
    assert(final(screen)@.drop_last() =~= old(screen)@);
}

/// A screen gives the size that it was last given, what it renders, where its cursor is, and
/// whether it takes whatever output comes and can be drawn.
pub proof fn law_screen_reads_call(
    screen: &Screen,
    size: (u16, u16),
    contents: Vec<u8>,
    position: (u16, u16),
    takes_all: bool,
    can_be_drawn: bool,
)
    requires
        call_ensures(Screen::size, (screen,), size),
        call_ensures(Screen::contents, (screen,), contents),
        call_ensures(Screen::cursor, (screen,), position),
        call_ensures(Screen::is_feedable, (screen,), takes_all),
        call_ensures(Screen::is_drawable, (screen,), can_be_drawn),
    ensures
        size.0 == log_rows(screen@),
        size.1 == log_cols(screen@),
        contents@ == rendered(screen@),
        position == cursor_cell(screen@),
        takes_all == feedable(screen@),
        can_be_drawn == drawable(screen@),
{
}

} // verus!
