//! Terminal sizes: the host's, and the one that a window's program is told.
use vstd::prelude::*;

verus! {

/// A terminal size, field for field as the terminal driver keeps it.
#[derive(Clone, Copy, Debug, PartialEq, Eq, Structural)]
pub struct TerminalSize {
    pub ws_row: u16,
    pub ws_col: u16,
    pub ws_xpixel: u16,
    pub ws_ypixel: u16,
}

/// The rows of a host terminal that are left to a window: all but the last one, which shows the
/// status bar, unless there is only one.
pub open spec fn window_rows(host_rows: u16) -> u16 {
    if host_rows > 1 {
        (host_rows - 1) as u16
    } else {
        host_rows
    }
}

/// The size with which a window's program starts.
pub open spec fn start_size(rows: u16, cols: u16) -> TerminalSize {
    TerminalSize { ws_row: rows, ws_col: cols, ws_xpixel: 0, ws_ypixel: 0 }
}

/// The size that a window's program is told when the host terminal has become `host`.
pub open spec fn told_size(host: TerminalSize) -> TerminalSize {
    TerminalSize { ws_row: window_rows(host.ws_row), ..host }
}

/// The rows of a host terminal that are left to a window.
pub fn pty_rows(host_rows: u16) -> (rows: u16)
    ensures
        rows == window_rows(host_rows),
{
    if host_rows > 1 {
        host_rows - 1
    } else {
        host_rows
    }
}

/// The size with which a window's program starts: these rows and columns, and no pixel sizes.
pub fn pty_size(rows: u16, cols: u16) -> (size: TerminalSize)
    ensures
        size == start_size(rows, cols),
{
    TerminalSize { ws_row: rows, ws_col: cols, ws_xpixel: 0, ws_ypixel: 0 }
}

/// The size that a window's program is told when the host terminal has become `host`: that of
/// the host, without the row of the status bar.
pub fn sync_terminal_size(host: TerminalSize) -> (size: TerminalSize)
    ensures
        size == told_size(host),
{
    TerminalSize { ws_row: pty_rows(host.ws_row), ..host }
}

/// Where the host has a row to spare, the status bar, on the host's last row, is on the row
/// right below the window's last one: neither covers the other.
pub proof fn law_status_row_is_free(host_rows: u16)
    requires
        host_rows > 1,
    ensures
        1 <= window_rows(host_rows),
        window_rows(host_rows) + 1 == host_rows,
{
}

/// A host without a row to spare leaves all that it has to the window.
pub proof fn law_a_single_row_is_the_windows(host_rows: u16)
    requires
        host_rows <= 1,
    ensures
        window_rows(host_rows) == host_rows,
{
}

/// A host of another height changes only the height that is told: the width and the pixel sizes
/// are the host's. A window's program starts with the rows and columns of its screen, and without
/// pixel sizes.
pub proof fn law_sizes_are_passed_on(host: TerminalSize, rows: u16, cols: u16)
    ensures
        host.ws_row > 1 ==> told_size(host).ws_row + 1 == host.ws_row,
        host.ws_row <= 1 ==> told_size(host).ws_row == host.ws_row,
        told_size(host).ws_col == host.ws_col,
        told_size(host).ws_xpixel == host.ws_xpixel,
        told_size(host).ws_ypixel == host.ws_ypixel,
        start_size(rows, cols).ws_row == rows,
        start_size(rows, cols).ws_col == cols,
        start_size(rows, cols).ws_xpixel == 0,
        start_size(rows, cols).ws_ypixel == 0,
{
}

} // verus!
