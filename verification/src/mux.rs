//! The multiplexer: its windows, which of them is shown, and what keys and program output do.
use vstd::prelude::*;

use crate::bytes::{occurs, paste_after, paste_off, paste_on};
use crate::screen::{log_cols, log_rows, Screen, ScreenOp};
use crate::size::{pty_rows, sync_terminal_size, told_size, window_rows, TerminalSize};

verus! {

/// The key that stands before a command: Ctrl-B.
pub const PREFIX_KEY: u8 = 0x02;

/// The command that opens a window: `c`.
pub const NEW_WINDOW_KEY: u8 = 0x63;

/// The command that shows the next window: `n`.
pub const NEXT_WINDOW_KEY: u8 = 0x6e;

/// The command that shows the previous window: `p`.
pub const PREVIOUS_WINDOW_KEY: u8 = 0x70;

/// The key under which the poller watches standard input. The window at index `i` is watched
/// under `i + 1`.
pub const STDIN_KEY: usize = 0;

/// What the event loop does after an event was handled.
#[derive(Clone, Copy, Debug, PartialEq, Eq, Structural)]
pub enum LoopAction {
    Continue,
    Redraw,
    Exit,
}

/// What a key asks of the program around the multiplexer.
#[derive(Clone, Copy, Debug, PartialEq, Eq, Structural)]
pub enum KeyEffect {
    /// Nothing.
    Done,
    /// To write one byte to the window at this index.
    Forward(PtyWrite),
    /// To open a new window.
    Spawn,
}

/// One byte for the program of one window.
#[derive(Clone, Copy, Debug, PartialEq, Eq, Structural)]
pub struct PtyWrite {
    pub window: usize,
    pub byte: u8,
}

/// A terminal size that the program of one window is to be told.
#[derive(Clone, Copy, Debug, PartialEq, Eq, Structural)]
pub struct ResizeNotice {
    pub window: usize,
    pub size: TerminalSize,
}

/// A window: a handle to its terminal's master side, its screen, and whether its program has
/// asked for bracketed paste.
pub struct Window<H> {
    pub master: H,
    pub screen: Screen,
    pub bracketed_paste: bool,
}

/// The multiplexer, over whatever the program around it uses as a handle to a terminal.
pub struct MuxApp<H> {
    pub windows: Vec<Window<H>>,
    pub current_window_idx: usize,
    pub prefix_mode: bool,
}

/// What a window is: its handle, the history of its screen, and its bracketed paste mode.
#[verifier::ext_equal]
pub struct WindowState<H> {
    pub master: H,
    pub log: Seq<ScreenOp>,
    pub bracketed_paste: bool,
}

/// What the multiplexer is.
#[verifier::ext_equal]
pub struct MuxState<H> {
    pub windows: Seq<WindowState<H>>,
    pub current: int,
    pub prefix_mode: bool,
}

impl<H> View for Window<H> {
    type V = WindowState<H>;

    open spec fn view(&self) -> WindowState<H> {
        WindowState {
            master: self.master,
            log: self.screen@,
            bracketed_paste: self.bracketed_paste,
        }
    }
}

impl<H> View for MuxApp<H> {
    type V = MuxState<H>;

    open spec fn view(&self) -> MuxState<H> {
        MuxState {
            windows: self.windows@.map_values(|w: Window<H>| w@),
            current: self.current_window_idx as int,
            prefix_mode: self.prefix_mode,
        }
    }
}

/// A window that was just opened on a host terminal of this size.
pub open spec fn fresh_window<H>(master: H, host: TerminalSize) -> WindowState<H> {
    WindowState {
        master,
        log: seq![
            ScreenOp::Opened {
                rows: window_rows(host.ws_row),
                cols: host.ws_col,
                scrollback: 0,
            },
        ],
        bracketed_paste: false,
    }
}

impl<H> MuxState<H> {
    /// The state of a multiplexer that was just started, with one window.
    pub open spec fn started(master: H, host: TerminalSize) -> Self {
        MuxState { windows: seq![fresh_window(master, host)], current: 0, prefix_mode: false }
    }

    /// There is a window to show.
    pub open spec fn live(self) -> bool {
        0 <= self.current < self.windows.len()
    }

    /// The key under which the next window that is opened is to be watched.
    pub open spec fn next_watch_key(self) -> nat {
        self.windows.len() + 1
    }

    /// The state after a window was opened: it is the last one, and it is shown.
    pub open spec fn spawned(self, master: H, host: TerminalSize) -> Self {
        MuxState {
            windows: self.windows.push(fresh_window(master, host)),
            current: self.windows.len() as int,
            ..self
        }
    }

    /// The state after the window at `i` was closed. The later windows move up by one. The
    /// index of the window that is shown stays, unless it would be past the last window: then
    /// it becomes the last one's.
    pub open spec fn closed(self, i: int) -> Self {
        let left = self.windows.remove(i);
        MuxState {
            windows: left,
            current: if left.len() > 0 && self.current >= left.len() {
                left.len() - 1
            } else {
                self.current
            },
            ..self
        }
    }

    /// The state after every screen was given another size.
    pub open spec fn resized(self, rows: u16, cols: u16) -> Self {
        MuxState {
            windows: self.windows.map_values(
                |w: WindowState<H>|
                    WindowState { log: w.log.push(ScreenOp::Resized { rows, cols }), ..w },
            ),
            ..self
        }
    }

    /// Who is told what when the host terminal has become `host`: the program of the window that
    /// is shown, and no other, the size that its screen gets.
    pub open spec fn resize_notice(self, host: TerminalSize) -> ResizeNotice {
        ResizeNotice {
            window: self.current as usize,
            size: told_size(host),
        }
    }

    /// The state after the program of the window at `i` put out `bytes`.
    pub open spec fn fed(self, i: int, bytes: Seq<u8>) -> Self {
        let w = self.windows[i];
        MuxState {
            windows: self.windows.update(
                i,
                WindowState {
                    log: w.log.push(ScreenOp::Fed { bytes }),
                    bracketed_paste: paste_after(w.bracketed_paste, bytes),
                    ..w
                },
            ),
            ..self
        }
    }

    /// What a key asks for. The prefix key is held back, and so is the command behind it, unless
    /// that is the prefix key again; every other key goes to the window that is shown.
    pub open spec fn key_effect(self, key: u8) -> KeyEffect {
        if self.prefix_mode && key == NEW_WINDOW_KEY {
            KeyEffect::Spawn
        } else if self.prefix_mode && key != PREFIX_KEY || !self.prefix_mode && key == PREFIX_KEY {
            KeyEffect::Done
        } else {
            KeyEffect::Forward(PtyWrite { window: self.current as usize, byte: key })
        }
    }

    /// The state after a key, before anything that it asks for was done.
    pub open spec fn after_key(self, key: u8) -> Self {
        let n = self.windows.len() as int;
        MuxState {
            prefix_mode: !self.prefix_mode && key == PREFIX_KEY,
            current: if self.prefix_mode && key == NEXT_WINDOW_KEY {
                (self.current + 1) % n
            } else if self.prefix_mode && key == PREVIOUS_WINDOW_KEY {
                (self.current + n - 1) % n
            } else {
                self.current
            },
            ..self
        }
    }

    /// The state after some keys, none of which but the last opens a window.
    pub open spec fn after_keys(self, keys: Seq<u8>) -> Self
        decreases keys.len(),
    {
        if keys.len() == 0 {
            self
        } else {
            self.after_keys(keys.drop_last()).after_key(keys.last())
        }
    }

    /// The bytes that some keys send to windows, in order.
    pub open spec fn key_writes(self, keys: Seq<u8>) -> Seq<PtyWrite>
        decreases keys.len(),
    {
        if keys.len() == 0 {
            Seq::empty()
        } else {
            let before = self.key_writes(keys.drop_last());
            match self.after_keys(keys.drop_last()).key_effect(keys.last()) {
                KeyEffect::Forward(write) => before.push(write),
                _ => before,
            }
        }
    }

    /// The key at `k` opens a window.
    pub open spec fn spawns_at(self, keys: Seq<u8>, k: int) -> bool {
        self.after_keys(keys.take(k)).key_effect(keys[k]) is Spawn
    }

    /// Some keys change what the status bar shows: a command was being typed, or one of them is
    /// the prefix key.
    pub open spec fn keys_redraw(self, keys: Seq<u8>) -> bool {
        keys.len() > 0 && (self.prefix_mode || keys.contains(PREFIX_KEY))
    }
}

impl<H> Window<H> {
    /// A window that was just opened on a host terminal of this size.
    fn open(master: H, host: TerminalSize) -> (window: Self)
        requires
            host.ws_row >= 1,
        ensures
            window.screen.wf(),
            window@ == fresh_window(master, host),
    {
        Window {
            master,
            screen: Screen::new(pty_rows(host.ws_row), host.ws_col),
            bracketed_paste: false,
        }
    }
}

impl<H> MuxApp<H> {
    /// The screens are well-formed.
    pub open spec fn wf(self) -> bool {
        forall|i: int| 0 <= i < self.windows@.len() ==> (#[trigger] self.windows@[i]).screen.wf()
    }

    /// The screens are well-formed, and there is a window to show.
    pub open spec fn inv(self) -> bool {
        &&& self.wf()
        &&& self@.live()
    }

    /// A multiplexer with one window, on a host terminal of this size.
    pub fn new(master: H, host: TerminalSize) -> (app: Self)
        requires
            host.ws_row >= 1,
        ensures
            app.inv(),
            app@ == MuxState::started(master, host),
    {
        let mut windows: Vec<Window<H>> = Vec::new();
        windows.push(Window::open(master, host));
        let app = MuxApp { windows, current_window_idx: 0, prefix_mode: false };
        assert(app@.windows =~= seq![fresh_window(master, host)]);
        app
    }

    /// The key under which the poller is to watch the next window that is opened.
    pub fn next_key(&self) -> (key: usize)
        requires
            self@.windows.len() < usize::MAX,
        ensures
            key == self@.next_watch_key(),
    {
        1 + self.windows.len()
    }

    /// Takes in a new window and shows it.
    pub fn spawn_new_window(&mut self, master: H, host: TerminalSize)
        requires
            old(self).wf(),
            host.ws_row >= 1,
        ensures
            final(self).inv(),
            final(self)@ == old(self)@.spawned(master, host),
    {
        self.windows.push(Window::open(master, host));
        self.current_window_idx = self.windows.len() - 1;
        assert(self@.windows =~= old(self)@.windows.push(fresh_window(master, host)));
    }

    /// Gives every screen the size that goes with a host terminal of this size, and says which
    /// window's terminal is to be told which size: that one alone, and once.
    pub fn handle_terminal_resize(&mut self, host: TerminalSize) -> (notice: ResizeNotice)
        requires
            old(self).inv(),
            host.ws_row >= 1,
            host.ws_col >= 1,
        ensures
            final(self).inv(),
            notice == old(self)@.resize_notice(host),
            notice.window == old(self).current_window_idx,
            final(self)@ == old(self)@.resized(window_rows(host.ws_row), host.ws_col),
    {
        let rows: u16 = pty_rows(host.ws_row);
        let mut i: usize = 0;
        while i < self.windows.len()
            invariant
                self.wf(),
                host.ws_row >= 1,
                host.ws_col >= 1,
                rows == window_rows(host.ws_row),
                i <= self.windows@.len(),
                self.windows@.len() == old(self).windows@.len(),
                self.current_window_idx == old(self).current_window_idx,
                self.prefix_mode == old(self).prefix_mode,
                forall|j: int| 0 <= j < i ==> (#[trigger] self.windows@[j])@ == old(self)@.resized(
                    rows,
                    host.ws_col,
                ).windows[j],
                forall|j: int| i <= j < self.windows@.len() ==> #[trigger] self.windows@[j]
                    == old(self).windows@[j],
            decreases self.windows@.len() - i,
        {
            self.windows[i].screen.resize(rows, host.ws_col);
            i += 1;
        }
        assert(self@.windows =~= old(self)@.resized(rows, host.ws_col).windows);
        ResizeNotice { window: self.current_window_idx, size: sync_terminal_size(host) }
    }
}

/// What the multiplexer is can be read off its fields, window by window.
pub proof fn law_state_is_what_the_fields_hold<H>(app: MuxApp<H>, i: int)
    requires
        0 <= i < app.windows@.len(),
    ensures
        app@.windows.len() == app.windows@.len(),
        app@.windows[i].master == app.windows@[i].master,
        app@.windows[i].log == app.windows@[i].screen@,
        app@.windows[i].bracketed_paste == app.windows@[i].bracketed_paste,
        app@.current == app.current_window_idx,
        app@.prefix_mode == app.prefix_mode,
{
}

/// A new window belongs to the terminal that it was opened for. Its screen was only just made,
/// without scrollback, as wide as the host and as high but for the row of the status bar, if the
/// host has a row to spare. Bracketed paste is off.
pub proof fn law_new_windows_are_fresh<H>(master: H, host: TerminalSize)
    ensures
        ({
            let window = fresh_window(master, host);
            &&& window.master == master
            &&& !window.bracketed_paste
            &&& window.log.len() == 1
            &&& window.log[0] matches ScreenOp::Opened { rows, cols, scrollback } && {
                &&& host.ws_row > 1 ==> rows + 1 == host.ws_row
                &&& host.ws_row <= 1 ==> rows == host.ws_row
                &&& cols == host.ws_col
                &&& scrollback == 0
            }
        }),
{
}

/// At the start there is one window, a new one; it is shown, and no command is being typed.
pub proof fn law_starts_with_one_window<H>(master: H, host: TerminalSize)
    ensures
        ({
            let state = MuxState::started(master, host);
            &&& state.windows.len() == 1
            &&& state.windows[0] == fresh_window(master, host)
            &&& state.current == 0
            &&& !state.prefix_mode
        }),
{
}

/// However many windows there are, opening one more adds it behind them and shows it. Those that
/// there were stay as and where they were, and so does a command that is being typed.
pub proof fn law_opening_adds_one_window<H>(
    state: MuxState<H>,
    master: H,
    host: TerminalSize,
    i: int,
)
    ensures
        ({
            let after = state.spawned(master, host);
            &&& after.windows.len() == state.windows.len() + 1
            &&& 0 <= i < state.windows.len() ==> after.windows[i] == state.windows[i]
            &&& after.windows.last() == fresh_window(master, host)
            &&& after.current == after.windows.len() - 1
            &&& after.prefix_mode == state.prefix_mode
        }),
{
}

/// Closing a window takes that one away and no other: those before it stay where they are, those
/// behind it move up by one, and none of them changes. The index of the window that is shown
/// stays wherever a window is left at it; if there is none, the last window is shown.
pub proof fn law_closing_takes_one_window<H>(state: MuxState<H>, i: int, j: int)
    requires
        0 <= i < state.windows.len(),
        0 <= j < state.windows.len(),
    ensures
        ({
            let after = state.closed(i);
            &&& after.windows.len() == state.windows.len() - 1
            &&& j < i ==> after.windows[j] == state.windows[j]
            &&& j > i ==> after.windows[j - 1] == state.windows[j]
            &&& state.current < after.windows.len() ==> after.current == state.current
            &&& state.current >= after.windows.len() > 0 ==> after.current == after.windows.len()
                - 1
            &&& after.windows.len() == 0 ==> after.current == state.current
            &&& after.prefix_mode == state.prefix_mode
        }),
{
}

/// Closing a window behind the one that is shown changes neither which window is shown nor that
/// window.
pub proof fn law_closing_behind_is_not_seen<H>(state: MuxState<H>, i: int)
    requires
        0 <= state.current < i < state.windows.len(),
    ensures
        state.closed(i).current == state.current,
        state.closed(i).windows[state.current] == state.windows[state.current],
{
}

/// Output of a window is one operation on its screen: the screen goes through exactly those bytes
/// after what it went through before. Bracketed paste is on afterwards if the output turns it on,
/// or if it was on and the output does not turn it off. The window keeps its terminal, and every
/// other window stays as it is.
pub proof fn law_output_is_one_operation<H>(state: MuxState<H>, i: int, bytes: Seq<u8>, j: int)
    requires
        0 <= i < state.windows.len(),
        0 <= j < state.windows.len(),
    ensures
        ({
            let after = state.fed(i, bytes);
            let log = after.windows[i].log;
            &&& after.windows.len() == state.windows.len()
            &&& log.len() == state.windows[i].log.len() + 1
            &&& log.drop_last() == state.windows[i].log
            &&& log.last() == ScreenOp::Fed { bytes }
            &&& after.windows[i].bracketed_paste == (occurs(bytes, paste_on())
                || state.windows[i].bracketed_paste && !occurs(bytes, paste_off()))
            &&& after.windows[i].master == state.windows[i].master
            &&& j != i ==> after.windows[j] == state.windows[j]
            &&& after.current == state.current
            &&& after.prefix_mode == state.prefix_mode
        }),
{
    assert(state.fed(i, bytes).windows[i].log.drop_last() =~= state.windows[i].log);
}

/// A resize gives every window the same size, and changes nothing else.
pub proof fn law_resize_reaches_every_window<H>(state: MuxState<H>, rows: u16, cols: u16, i: int)
    requires
        0 <= i < state.windows.len(),
    ensures
        ({
            let after = state.resized(rows, cols);
            &&& after.windows.len() == state.windows.len()
            &&& log_rows(after.windows[i].log) == rows
            &&& log_cols(after.windows[i].log) == cols
            &&& after.windows[i].master == state.windows[i].master
            &&& after.windows[i].bracketed_paste == state.windows[i].bracketed_paste
            &&& after.current == state.current
            &&& after.prefix_mode == state.prefix_mode
        }),
{
    assert(state.resized(rows, cols).windows[i].log.last() == (ScreenOp::Resized { rows, cols }));
}

/// A resize is one operation on every screen, the one that gives it the new size: what the screen
/// went through before stays as it was, and it passes through no other size on the way.
pub proof fn law_resize_is_one_operation<H>(state: MuxState<H>, rows: u16, cols: u16, i: int)
    requires
        0 <= i < state.windows.len(),
    ensures
        ({
            let before = state.windows[i].log;
            let after = state.resized(rows, cols).windows[i].log;
            &&& after.len() == before.len() + 1
            &&& after.drop_last() == before
            &&& after.last() == ScreenOp::Resized { rows, cols }
        }),
{
    assert(state.resized(rows, cols).windows[i].log.drop_last() =~= state.windows[i].log);
}

/// On a resize the window whose program is told is one that is there, it is the one that is
/// shown, and the size that it is told is the one that its screen has from then on.
pub proof fn law_told_size_is_the_screen_size<H>(state: MuxState<H>, host: TerminalSize)
    requires
        state.live(),
        state.windows.len() <= usize::MAX,
    ensures
        ({
            let notice = state.resize_notice(host);
            let after = state.resized(window_rows(host.ws_row), host.ws_col);
            &&& notice.window == after.current
            &&& notice.window < after.windows.len()
            &&& notice.window == state.current
            &&& notice.size.ws_row == log_rows(after.windows[after.current].log)
            &&& notice.size.ws_col == log_cols(after.windows[after.current].log)
            &&& host.ws_row > 1 ==> notice.size.ws_row + 1 == host.ws_row
            &&& host.ws_row <= 1 ==> notice.size.ws_row == host.ws_row
            &&& notice.size.ws_col == host.ws_col
            &&& notice.size.ws_xpixel == host.ws_xpixel
            &&& notice.size.ws_ypixel == host.ws_ypixel
        }),
{
    law_resize_reaches_every_window(
        state,
        window_rows(host.ws_row),
        host.ws_col,
        state.current,
    );
}

} // verus!
