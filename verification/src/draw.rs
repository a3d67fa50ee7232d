//! What is drawn: the screen of one window, and the status bar below it.
use vstd::prelude::*;
use vstd::utf8::{encode_utf8, is_ascii_chars_encode_utf8};

use crate::bytes::{law_paste_sequences, occurs_at, paste_off, paste_on};
use crate::keys::law_plain_keys_pass_through;
use crate::mux::{MuxApp, MuxState, Window};
use crate::pty::{PtyEvent, PtyStep};
use crate::screen::{cursor_cell, drawable, rendered};
use crate::size::TerminalSize;

verus! {

/// The decimal digits of `n`.
pub open spec fn decimal(n: nat) -> Seq<u8>
    decreases n,
{
    let digit = (0x30 + n % 10) as u8;
    if n < 10 {
        seq![digit]
    } else {
        decimal(n / 10).push(digit)
    }
}

/// The escape sequence that moves the cursor to `row` and `col`, counted from one.
pub open spec fn move_to(row: nat, col: nat) -> Seq<u8> {
    encode_utf8("\x1b["@) + decimal(row) + encode_utf8(";"@) + decimal(col) + encode_utf8("H"@)
}

/// The tab of the window at `idx`, when the one at `current` is shown.
pub open spec fn tab(idx: nat, current: int) -> Seq<u8> {
    if idx == current {
        encode_utf8(" \x1b[48;5;240m\x1b[38;5;255m "@) + decimal(idx) + encode_utf8(
            ":bash* \x1b[48;5;236m"@,
        )
    } else {
        encode_utf8(" "@) + decimal(idx) + encode_utf8(":bash "@)
    }
}

/// The tabs of the first `n` windows.
pub open spec fn tabs(n: nat, current: int) -> Seq<u8>
    decreases n,
{
    if n == 0 {
        Seq::empty()
    } else {
        tabs((n - 1) as nat, current) + tab((n - 1) as nat, current)
    }
}

/// What shows that a command is being typed.
pub open spec fn prefix_badge(prefix_mode: bool) -> Seq<u8> {
    if prefix_mode {
        encode_utf8(" \x1b[48;5;160m\x1b[38;5;255m [PREFIX] \x1b[48;5;236m"@)
    } else {
        Seq::empty()
    }
}

/// The status bar.
pub open spec fn status_bar(
    windows: nat,
    current: int,
    prefix_mode: bool,
    host: TerminalSize,
) -> Seq<u8> {
    encode_utf8("\x1b[48;5;236m\x1b[38;5;255m \u{1f980} RUST-MUX |"@) + prefix_badge(prefix_mode)
        + encode_utf8(" Tabs:"@) + tabs(windows, current) + encode_utf8(" | Grid: "@) + decimal(
        host.ws_row as nat,
    ) + encode_utf8("x"@) + decimal(host.ws_col as nat) + encode_utf8(" \x1b[K\x1b[0m"@)
}

/// Everything that is written to draw the interface: the bracketed paste mode and the screen of
/// the window that is shown, from the top left corner; the status bar, on the last row of the
/// host; and the cursor, back where that window has it.
pub open spec fn frame_bytes(
    bracketed_paste: bool,
    contents: Seq<u8>,
    cursor: (u16, u16),
    bar: Seq<u8>,
    host: TerminalSize,
) -> Seq<u8> {
    (if bracketed_paste {
        paste_on()
    } else {
        paste_off()
    }) + encode_utf8("\x1b[H"@) + contents + move_to(host.ws_row as nat, 1) + bar + move_to(
        (cursor.0 + 1) as nat,
        (cursor.1 + 1) as nat,
    )
}

impl<H> MuxState<H> {
    /// Everything that is written to draw the interface on a host terminal of this size.
    pub open spec fn frame(self, host: TerminalSize) -> Seq<u8> {
        let shown = self.windows[self.current];
        frame_bytes(
            shown.bracketed_paste,
            rendered(shown.log),
            cursor_cell(shown.log),
            status_bar(self.windows.len(), self.current, self.prefix_mode, host),
            host,
        )
    }
}

/// Appends `text`.
fn push_text(out: &mut Vec<u8>, text: &str)
    ensures
        final(out)@ == old(out)@ + encode_utf8(text@),
{
    out.extend_from_slice(text.as_bytes());
    assert(out@ =~= old(out)@ + encode_utf8(text@));
}

/// Appends the decimal digits of `n`.
fn push_decimal(out: &mut Vec<u8>, n: usize)
    ensures
        final(out)@ == old(out)@ + decimal(n as nat),
    decreases n,
{
    if n >= 10 {
        push_decimal(out, n / 10);
    }
    let digit: u8 = 0x30 + (n % 10) as u8;
    out.push(digit);
    assert(out@ =~= old(out)@ + decimal(n as nat));
}

/// Appends the escape sequence that moves the cursor to `row` and `col`, counted from one.
fn push_move_to(out: &mut Vec<u8>, row: usize, col: usize)
    ensures
        final(out)@ == old(out)@ + move_to(row as nat, col as nat),
{
    push_text(out, "\x1b[");
    push_decimal(out, row);
    push_text(out, ";");
    push_decimal(out, col);
    push_text(out, "H");
    assert(out@ =~= old(out)@ + move_to(row as nat, col as nat));
}

/// Appends the tab of the window at `idx`, when the one at `current` is shown.
fn push_tab(out: &mut Vec<u8>, idx: usize, current: usize)
    ensures
        final(out)@ == old(out)@ + tab(idx as nat, current as int),
{
    if idx == current {
        push_text(out, " \x1b[48;5;240m\x1b[38;5;255m ");
        push_decimal(out, idx);
        push_text(out, ":bash* \x1b[48;5;236m");
    } else {
        push_text(out, " ");
        push_decimal(out, idx);
        push_text(out, ":bash ");
    }
    assert(out@ =~= old(out)@ + tab(idx as nat, current as int));
}

/// The status bar.
pub fn compose_status_bar(
    windows: usize,
    current: usize,
    prefix_mode: bool,
    host: TerminalSize,
) -> (bar: Vec<u8>)
    ensures
        bar@ == status_bar(windows as nat, current as int, prefix_mode, host),
{
    let mut bar: Vec<u8> = Vec::new();
    push_text(&mut bar, "\x1b[48;5;236m\x1b[38;5;255m \u{1f980} RUST-MUX |");
    if prefix_mode {
        push_text(&mut bar, " \x1b[48;5;160m\x1b[38;5;255m [PREFIX] \x1b[48;5;236m");
    }
    push_text(&mut bar, " Tabs:");
    let ghost before = bar@;
    let mut idx: usize = 0;
    while idx < windows
        invariant
            idx <= windows,
            bar@ == before + tabs(idx as nat, current as int),
        decreases windows - idx,
    {
        push_tab(&mut bar, idx, current);
        idx += 1;
        assert(bar@ =~= before + tabs(idx as nat, current as int));
    }
    push_text(&mut bar, " | Grid: ");
    push_decimal(&mut bar, host.ws_row as usize);
    push_text(&mut bar, "x");
    push_decimal(&mut bar, host.ws_col as usize);
    push_text(&mut bar, " \x1b[K\x1b[0m");
    assert(bar@ =~= status_bar(windows as nat, current as int, prefix_mode, host));
    bar
}

/// Everything that is written to draw the interface, from what the screen of the window that is
/// shown looks like and where its cursor is.
pub fn compose_frame(
    bracketed_paste: bool,
    contents: &[u8],
    cursor: (u16, u16),
    bar: &[u8],
    host: TerminalSize,
) -> (frame: Vec<u8>)
    ensures
        frame@ == frame_bytes(bracketed_paste, contents@, cursor, bar@, host),
{
    let mut frame: Vec<u8> = Vec::new();
    if bracketed_paste {
        push_text(&mut frame, "\x1b[?2004h");
    } else {
        push_text(&mut frame, "\x1b[?2004l");
    }
    push_text(&mut frame, "\x1b[H");
    frame.extend_from_slice(contents);
    push_move_to(&mut frame, host.ws_row as usize, 1);
    frame.extend_from_slice(bar);
    push_move_to(&mut frame, cursor.0 as usize + 1, cursor.1 as usize + 1);
    assert(frame@ =~= frame_bytes(bracketed_paste, contents@, cursor, bar@, host));
    frame
}

impl<H> MuxApp<H> {
    /// Everything that is written to draw the interface on a host terminal of this size.
    pub fn draw_interface(&self, host: TerminalSize) -> (frame: Vec<u8>)
        requires
            self.inv(),
            drawable(self@.windows[self@.current].log),
        ensures
            frame@ == self@.frame(host),
    {
        let shown: &Window<H> = &self.windows[self.current_window_idx];
        assert(shown@ == self@.windows[self@.current]);
        let contents = shown.screen.contents();
        let cursor = shown.screen.cursor();
        let bar = compose_status_bar(
            self.windows.len(),
            self.current_window_idx,
            self.prefix_mode,
            host,
        );
        compose_frame(
            shown.bracketed_paste,
            contents.as_slice(),
            cursor,
            bar.as_slice(),
            host,
        )
    }
}

/// The number that decimal digits stand for.
pub open spec fn decimal_value(digits: Seq<u8>) -> int
    decreases digits.len(),
{
    if digits.len() == 0 {
        0
    } else {
        decimal_value(digits.drop_last()) * 10 + (digits.last() - 0x30)
    }
}

/// The digits of a number are digits, stand for the number, and do not begin with a zero unless
/// they are just that.
pub proof fn law_decimal_reads_back(n: nat)
    ensures
        decimal_value(decimal(n)) == n,
        decimal(n).len() >= 1,
        forall|i: int| 0 <= i < decimal(n).len() ==> 0x30 <= #[trigger] decimal(n)[i] <= 0x39,
        n > 0 ==> decimal(n)[0] != 0x30,
    decreases n,
{
    let digit = (0x30 + n % 10) as u8;
    if n < 10 {
        assert(decimal(n).drop_last() =~= Seq::<u8>::empty());
        reveal_with_fuel(decimal_value, 2);
    } else {
        law_decimal_reads_back(n / 10);
        assert(decimal(n).drop_last() =~= decimal(n / 10));
        assert(decimal(n).last() == digit);
        assert(decimal(n)[0] == decimal(n / 10)[0]);
    }
}

/// The escape sequence that moves the cursor holds the row and then the column, in digits that read
/// back as these numbers, and nothing else but what it is made with.
pub proof fn law_move_to_names_the_cell(row: nat, col: nat)
    ensures
        move_to(row, col) == seq![0x1bu8, 0x5b] + decimal(row) + seq![0x3bu8] + decimal(col)
            + seq![0x48u8],
        decimal_value(move_to(row, col).subrange(2, 2int + decimal(row).len())) == row,
        decimal_value(
            move_to(row, col).subrange(3int + decimal(row).len(), move_to(row, col).len() - 1),
        ) == col,
{
    reveal_strlit("\x1b[");
    reveal_strlit(";");
    reveal_strlit("H");
    is_ascii_chars_encode_utf8("\x1b["@);
    is_ascii_chars_encode_utf8(";"@);
    is_ascii_chars_encode_utf8("H"@);
    assert(encode_utf8("\x1b["@) =~= seq![0x1bu8, 0x5b]);
    assert(encode_utf8(";"@) =~= seq![0x3bu8]);
    assert(encode_utf8("H"@) =~= seq![0x48u8]);
    law_decimal_reads_back(row);
    law_decimal_reads_back(col);
    let all = move_to(row, col);
    assert(all.subrange(2, 2int + decimal(row).len()) =~= decimal(row));
    assert(all.subrange(3int + decimal(row).len(), all.len() - 1) =~= decimal(col));
}

/// Whatever the paste mode, the cursor, the bar and the host, everything that is drawn is there,
/// whole and once, one right behind the other and with nothing else between, before or behind:
/// the sequence for the paste mode, the move to the top left corner, the contents of the screen,
/// the move to the last row of the host, the bar, and the move to the cursor.
pub proof fn law_frame_holds_everything_once(
    bracketed_paste: bool,
    contents: Seq<u8>,
    cursor: (u16, u16),
    bar: Seq<u8>,
    host: TerminalSize,
)
    ensures
        ({
            let frame = frame_bytes(bracketed_paste, contents, cursor, bar, host);
            let to_bar = move_to(host.ws_row as nat, 1);
            let to_cursor = move_to((cursor.0 + 1) as nat, (cursor.1 + 1) as nat);
            let bar_at = 11int + contents.len() + to_bar.len();
            &&& bracketed_paste ==> occurs_at(frame, paste_on(), 0)
            &&& !bracketed_paste ==> occurs_at(frame, paste_off(), 0)
            &&& occurs_at(frame, seq![0x1bu8, 0x5b, 0x48], 8)
            &&& occurs_at(frame, contents, 11)
            &&& occurs_at(frame, to_bar, 11int + contents.len())
            &&& occurs_at(frame, bar, bar_at)
            &&& occurs_at(frame, to_cursor, bar_at + bar.len())
            &&& frame.len() == bar_at + bar.len() + to_cursor.len()
        }),
{
    law_paste_sequences();
    law_home_sequence();
    let frame = frame_bytes(bracketed_paste, contents, cursor, bar, host);
    let to_bar = move_to(host.ws_row as nat, 1);
    let to_cursor = move_to((cursor.0 + 1) as nat, (cursor.1 + 1) as nat);
    let bar_at = 11int + contents.len() + to_bar.len();
    assert(bracketed_paste ==> frame.subrange(0, 8) =~= paste_on());
    assert(!bracketed_paste ==> frame.subrange(0, 8) =~= paste_off());
    assert(frame.subrange(8, 11) =~= seq![0x1bu8, 0x5b, 0x48]);
    assert(frame.subrange(11, 11int + contents.len()) =~= contents);
    assert(frame.subrange(11int + contents.len(), bar_at) =~= to_bar);
    assert(frame.subrange(bar_at, bar_at + bar.len()) =~= bar);
    assert(frame.subrange(bar_at + bar.len(), frame.len() as int) =~= to_cursor);
}

/// Frames that differ only in bracketed paste differ only in the sequence that they begin with,
/// and frames that differ only in the cursor only in the move that they end with.
pub proof fn law_frames_differ_where_they_should(
    contents: Seq<u8>,
    cursor: (u16, u16),
    other: (u16, u16),
    bar: Seq<u8>,
    host: TerminalSize,
    bracketed_paste: bool,
)
    ensures
        ({
            let on = frame_bytes(true, contents, cursor, bar, host);
            let off = frame_bytes(false, contents, cursor, bar, host);
            let here = frame_bytes(bracketed_paste, contents, cursor, bar, host);
            let there = frame_bytes(bracketed_paste, contents, other, bar, host);
            let same = 11int + contents.len() + move_to(host.ws_row as nat, 1).len() + bar.len();
            &&& on.take(8) == paste_on()
            &&& off.take(8) == paste_off()
            &&& on.skip(8) == off.skip(8)
            &&& here.take(same) == there.take(same)
        }),
{
    law_paste_sequences();
    law_home_sequence();
    let on = frame_bytes(true, contents, cursor, bar, host);
    let off = frame_bytes(false, contents, cursor, bar, host);
    let here = frame_bytes(bracketed_paste, contents, cursor, bar, host);
    let there = frame_bytes(bracketed_paste, contents, other, bar, host);
    let same = 11int + contents.len() + move_to(host.ws_row as nat, 1).len() + bar.len();
    assert(on.take(8) =~= paste_on());
    assert(off.take(8) =~= paste_off());
    assert(on.skip(8) =~= off.skip(8));
    assert(here.take(same) =~= there.take(same));
}

/// What moves the cursor home, byte for byte.
pub proof fn law_home_sequence()
    ensures
        encode_utf8("\x1b[H"@) == seq![0x1bu8, 0x5b, 0x48],
{
    reveal_strlit("\x1b[H");
    is_ascii_chars_encode_utf8("\x1b[H"@);
    assert(encode_utf8("\x1b[H"@) =~= seq![0x1bu8, 0x5b, 0x48]);
}

/// What is drawn is the window that is shown, in every state: its paste mode, all that its screen
/// renders, right after the move to the top left corner, and its cursor, counted from one. The bar
/// is on the last row of the host, and is that for the windows that there are.
pub proof fn law_the_shown_window_is_drawn<H>(state: MuxState<H>, host: TerminalSize)
    ensures
        ({
            let shown = state.windows[state.current];
            let frame = state.frame(host);
            let contents = rendered(shown.log);
            let cursor = cursor_cell(shown.log);
            let bar = status_bar(state.windows.len(), state.current, state.prefix_mode, host);
            let to_bar = move_to(host.ws_row as nat, 1);
            let to_cursor = move_to((cursor.0 + 1) as nat, (cursor.1 + 1) as nat);
            let bar_at = 11int + contents.len() + to_bar.len();
            &&& shown.bracketed_paste ==> occurs_at(frame, paste_on(), 0)
            &&& !shown.bracketed_paste ==> occurs_at(frame, paste_off(), 0)
            &&& occurs_at(frame, seq![0x1bu8, 0x5b, 0x48], 8)
            &&& occurs_at(frame, contents, 11)
            &&& occurs_at(frame, to_bar, 11int + contents.len())
            &&& occurs_at(frame, bar, bar_at)
            &&& occurs_at(frame, to_cursor, bar_at + bar.len())
            &&& frame.len() == bar_at + bar.len() + to_cursor.len()
        }),
{
    let shown = state.windows[state.current];
    law_frame_holds_everything_once(
        shown.bracketed_paste,
        rendered(shown.log),
        cursor_cell(shown.log),
        status_bar(state.windows.len(), state.current, state.prefix_mode, host),
        host,
    );
}

/// Every window has its tab, in the order of the windows and with nothing between: each tab stands
/// right behind those of the windows before it, however many windows there are.
pub proof fn law_every_window_has_its_tab(n: nat, i: nat, current: int)
    requires
        i < n,
    ensures
        tabs(0, current) == Seq::<u8>::empty(),
        tabs(i + 1, current) == tabs(i, current) + tab(i, current),
        tabs(i + 1, current).is_prefix_of(tabs(n, current)),
    decreases n,
{
    if i + 1 < n {
        law_every_window_has_its_tab((n - 1) as nat, i, current);
        assert(tabs(i + 1, current) =~= tabs(n, current).subrange(
            0,
            tabs(i + 1, current).len() as int,
        ));
    } else {
        assert(tabs(n, current).subrange(0, tabs(n, current).len() as int) =~= tabs(n, current));
    }
}

/// A tab names the index of its window. Only that of the window that is shown is marked, and which
/// other window is shown makes no difference to a tab.
pub proof fn law_only_the_shown_tab_is_marked(i: nat, current: int, other: int)
    requires
        i != current,
        i != other,
    ensures
        tab(i, i as int) == encode_utf8(" \x1b[48;5;240m\x1b[38;5;255m "@) + decimal(i)
            + encode_utf8(":bash* \x1b[48;5;236m"@),
        tab(i, current) == encode_utf8(" "@) + decimal(i) + encode_utf8(":bash "@),
        tab(i, current) == tab(i, other),
{
}

/// The status bar shows the tabs of all windows and the size of the host, whatever these are. While
/// a command is being typed, the badge for that stands before them, and nothing else is different.
pub proof fn law_status_bar_shows_the_state(
    windows: nat,
    current: int,
    prefix_mode: bool,
    host: TerminalSize,
)
    ensures
        ({
            let bar = status_bar(windows, current, prefix_mode, host);
            let name = encode_utf8("\x1b[48;5;236m\x1b[38;5;255m \u{1f980} RUST-MUX |"@);
            let badge = encode_utf8(" \x1b[48;5;160m\x1b[38;5;255m [PREFIX] \x1b[48;5;236m"@);
            bar == (if prefix_mode {
                name + badge
            } else {
                name
            }) + encode_utf8(" Tabs:"@) + tabs(windows, current) + encode_utf8(" | Grid: "@)
                + decimal(host.ws_row as nat) + encode_utf8("x"@) + decimal(host.ws_col as nat)
                + encode_utf8(" \x1b[K\x1b[0m"@)
        }),
{
    let name = encode_utf8("\x1b[48;5;236m\x1b[38;5;255m \u{1f980} RUST-MUX |"@);
    assert(name + Seq::<u8>::empty() =~= name);
}

/// What a window that is not shown puts out does not change what is drawn.
pub proof fn law_hidden_output_is_not_drawn<H>(
    state: MuxState<H>,
    i: int,
    bytes: Seq<u8>,
    host: TerminalSize,
)
    requires
        state.live(),
        0 <= i < state.windows.len(),
        i != state.current,
    ensures
        state.fed(i, bytes).frame(host) == state.frame(host),
{
}

/// The step does not say that the window that is shown has changed.
pub open spec fn reports_nothing<H>(step: PtyStep<H>) -> bool {
    match step {
        PtyStep::Ignore => true,
        PtyStep::Read { changed } => !changed,
        PtyStep::Rearm { action, .. } => action is Continue,
        PtyStep::Closed { .. } => false,
    }
}

/// No redraw is missed after output: where nothing was reported as changed, what is drawn is
/// what it was.
pub proof fn law_unchanged_is_not_redrawn<H>(
    state: MuxState<H>,
    i: int,
    event: PtyEvent,
    step: PtyStep<H>,
    after: MuxState<H>,
    host: TerminalSize,
)
    requires
        state.live(),
        0 <= i,
        state.pty_step(i, event, false, step, after),
        reports_nothing(step),
    ensures
        after.frame(host) == state.frame(host),
{
}

/// No redraw is missed after keys: where they ask for none, what is drawn is what it was.
pub proof fn law_plain_keys_are_not_redrawn<H>(
    state: MuxState<H>,
    keys: Seq<u8>,
    host: TerminalSize,
)
    requires
        !state.keys_redraw(keys),
    ensures
        state.after_keys(keys).frame(host) == state.frame(host),
{
    if keys.len() > 0 {
        law_plain_keys_pass_through(state, keys);
    }
}

} // verus!
