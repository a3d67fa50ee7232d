//! The screen of a window: a `vt100` terminal emulator and what is known of its history.
use vstd::prelude::*;

verus! {

/// One call that an emulator has gone through.
pub enum ScreenOp {
    /// The emulator was made with this size and this much scrollback.
    Opened { rows: u16, cols: u16, scrollback: usize },
    /// The emulator processed these bytes of program output, in one piece.
    Fed { bytes: Seq<u8> },
    /// The emulator was given another size.
    Resized { rows: u16, cols: u16 },
}

/// The number of rows after `log`.
pub open spec fn log_rows(log: Seq<ScreenOp>) -> u16
    decreases log.len(),
{
    if log.len() == 0 {
        0
    } else {
        match log.last() {
            ScreenOp::Opened { rows, .. } => rows,
            ScreenOp::Resized { rows, .. } => rows,
            ScreenOp::Fed { .. } => log_rows(log.drop_last()),
        }
    }
}

/// The number of columns after `log`.
pub open spec fn log_cols(log: Seq<ScreenOp>) -> u16
    decreases log.len(),
{
    if log.len() == 0 {
        0
    } else {
        match log.last() {
            ScreenOp::Opened { cols, .. } => cols,
            ScreenOp::Resized { cols, .. } => cols,
            ScreenOp::Fed { .. } => log_cols(log.drop_last()),
        }
    }
}

/// Every one of `bytes` is an ASCII byte.
pub open spec fn all_ascii(bytes: Seq<u8>) -> bool {
    forall|i: int| 0 <= i < bytes.len() ==> #[trigger] bytes[i] < 0x80
}

/// All output in `log` is ASCII, so that no cell holds a double-width character.
pub open spec fn ascii_fed(log: Seq<ScreenOp>) -> bool
    decreases log.len(),
{
    log.len() > 0 ==> {
        &&& ascii_fed(log.drop_last())
        &&& log.last() matches ScreenOp::Fed { bytes } ==> all_ascii(bytes)
    }
}

/// No resize in `log` took columns away from a screen that may have held a double-width
/// character: none of those was cut in half.
pub open spec fn uncut(log: Seq<ScreenOp>) -> bool
    decreases log.len(),
{
    log.len() > 0 ==> {
        &&& uncut(log.drop_last())
        &&& log.last() matches ScreenOp::Resized { cols, .. } ==> {
            cols < log_cols(log.drop_last()) ==> ascii_fed(log.drop_last())
        }
    }
}

/// An emulator with this history takes whatever output comes.
pub open spec fn feedable(log: Seq<ScreenOp>) -> bool {
    &&& log_rows(log) >= 2
    &&& 3 <= log_cols(log) <= 65527
    &&& uncut(log)
}

/// An emulator with this history takes this output: every output, or this one.
pub open spec fn takes(log: Seq<ScreenOp>, bytes: Seq<u8>) -> bool {
    feedable(log) || processes(log, bytes)
}

/// The screen of an emulator with this history can be drawn.
pub open spec fn drawable(log: Seq<ScreenOp>) -> bool {
    log_cols(log) >= 2 || log_cols(log) == 1 && uncut(log)
}

/// A `vt100::Parser`: a terminal emulator with its screen. It is held here because Verus takes no
/// declaration of a type with a parameter that a foreign trait bounds.
#[verifier::external_body]
pub struct Emulator {
    parser: vt100::Parser,
}

/// What an emulator has gone through since it was made, oldest first.
pub uninterp spec fn screen_log(emulator: Emulator) -> Seq<ScreenOp>;

/// Whether `vt100::Parser::process` returns, for these bytes on an emulator with this history,
/// and does not panic.
pub uninterp spec fn processes(log: Seq<ScreenOp>, bytes: Seq<u8>) -> bool;

/// What `vt100::Screen::contents_formatted` returns after `log`.
pub uninterp spec fn rendered(log: Seq<ScreenOp>) -> Seq<u8>;

/// What `vt100::Screen::cursor_position` returns after `log`: the row and the column.
pub uninterp spec fn cursor_cell(log: Seq<ScreenOp>) -> (u16, u16);

/// `vt100::Parser::new`: an emulator of the given size that has gone through nothing else.
/// It subtracts one from the number of rows, hence the requirement.
#[verifier::external_body]
fn open_emulator(rows: u16, cols: u16, scrollback: usize) -> (emulator: Emulator)
    requires
        rows >= 1,
    ensures
        screen_log(emulator) == seq![ScreenOp::Opened { rows, cols, scrollback }],
{
    Emulator { parser: vt100::Parser::new(rows, cols, scrollback) }
}

/// `vt100::Parser::process`: the emulator goes through these bytes, and nothing else happens
/// to it.
///
/// The call can panic. It subtracts the width of a character from the number of columns, steps
/// back one row when it wraps on the last one, adds eight to the column of a tab, and reaches
/// for the second half of a double-width character, which `set_size` may have cut off. With at
/// least two rows, three to 65527 columns and nothing cut off, none of these fails; that is
/// `feedable`. Elsewhere it depends on the bytes, and `processes` stands for the answer.
#[verifier::external_body]
fn process(emulator: &mut Emulator, bytes: &[u8])
    requires
        takes(screen_log(*old(emulator)), bytes@),
    ensures
        screen_log(*final(emulator)) == screen_log(*old(emulator)).push(
            ScreenOp::Fed { bytes: bytes@ },
        ),
        processes(screen_log(*old(emulator)), bytes@),
{
    emulator.parser.process(bytes)
}

/// `vt100::Screen::set_size`, on the emulator's screen: the emulator goes through this resize,
/// and nothing else happens to it. It subtracts one from both numbers, hence the requirement.
#[verifier::external_body]
fn set_size(emulator: &mut Emulator, rows: u16, cols: u16)
    requires
        rows >= 1,
        cols >= 1,
    ensures
        screen_log(*final(emulator)) == screen_log(*old(emulator)).push(
            ScreenOp::Resized { rows, cols },
        ),
{
    emulator.parser.screen_mut().set_size(rows, cols)
}

/// `vt100::Screen::contents_formatted`, on the emulator's screen: a function of what the
/// emulator has gone through.
///
/// The call can panic. It reads the first cell of each row. And where the cursor is past the end
/// of its row and the last cell is the second half of a double-width character, it reads the
/// cell before that one. With two columns there is one. With a single column no cell is such a
/// half, unless a resize has cut a double-width character off: that is `drawable`.
#[verifier::external_body]
fn contents_formatted(emulator: &Emulator) -> (contents: Vec<u8>)
    requires
        drawable(screen_log(*emulator)),
    ensures
        contents@ == rendered(screen_log(*emulator)),
{
    emulator.parser.screen().contents_formatted()
}

/// `vt100::Screen::cursor_position`, on the emulator's screen: a function of what the emulator
/// has gone through.
#[verifier::external_body]
fn cursor_position(emulator: &Emulator) -> (position: (u16, u16))
    ensures
        position == cursor_cell(screen_log(*emulator)),
{
    emulator.parser.screen().cursor_position()
}

/// Whether every byte is an ASCII byte.
fn is_all_ascii(bytes: &[u8]) -> (ascii: bool)
    ensures
        ascii == all_ascii(bytes@),
{
    let mut i: usize = 0;
    while i < bytes.len()
        invariant
            i <= bytes@.len(),
            forall|j: int| 0 <= j < i ==> #[trigger] bytes@[j] < 0x80,
        decreases bytes@.len() - i,
    {
        if bytes[i] >= 0x80 {
            assert(bytes@[i as int] >= 0x80);
            return false;
        }
        i += 1;
    }
    true
}

/// A screen. Its view is what its emulator has gone through.
pub struct Screen {
    emulator: Emulator,
    rows: u16,
    cols: u16,
    ascii: bool,
    uncut: bool,
}

impl View for Screen {
    type V = Seq<ScreenOp>;

    closed spec fn view(&self) -> Seq<ScreenOp> {
        screen_log(self.emulator)
    }
}

impl Screen {
    /// What the screen remembers of its emulator is true of it.
    pub closed spec fn wf(self) -> bool {
        &&& self.rows == log_rows(self@)
        &&& self.cols == log_cols(self@)
        &&& self.ascii == ascii_fed(self@)
        &&& self.uncut == uncut(self@)
    }

    /// An empty screen without scrollback.
    pub fn new(rows: u16, cols: u16) -> (screen: Self)
        requires
            rows >= 1,
        ensures
            screen.wf(),
            screen@ == seq![ScreenOp::Opened { rows, cols, scrollback: 0 }],
    {
        let screen = Screen {
            emulator: open_emulator(rows, cols, 0),
            rows,
            cols,
            ascii: true,
            uncut: true,
        };
        proof {
            assert(screen@.last() == ScreenOp::Opened { rows, cols, scrollback: 0 });
            assert(screen@.drop_last() =~= Seq::<ScreenOp>::empty());
            reveal_with_fuel(ascii_fed, 2);
            reveal_with_fuel(uncut, 2);
        }
        screen
    }

    /// The number of rows and of columns.
    pub fn size(&self) -> (size: (u16, u16))
        requires
            self.wf(),
        ensures
            size == (log_rows(self@), log_cols(self@)),
    {
        (self.rows, self.cols)
    }

    /// Whether the screen takes whatever output comes.
    pub fn is_feedable(&self) -> (yes: bool)
        requires
            self.wf(),
        ensures
            yes == feedable(self@),
    {
        self.rows >= 2 && self.cols >= 3 && self.cols <= 65527 && self.uncut
    }

    /// Whether the screen can be drawn.
    pub fn is_drawable(&self) -> (yes: bool)
        requires
            self.wf(),
        ensures
            yes == drawable(self@),
    {
        self.cols >= 2 || self.cols == 1 && self.uncut
    }

    /// Shows a piece of program output.
    pub fn feed(&mut self, bytes: &[u8])
        requires
            old(self).wf(),
            takes(old(self)@, bytes@),
        ensures
            final(self).wf(),
            final(self)@ == old(self)@.push(ScreenOp::Fed { bytes: bytes@ }),
    {
        self.ascii = is_all_ascii(bytes) && self.ascii;
        process(&mut self.emulator, bytes);
        assert(self@.drop_last() =~= old(self)@);
    }

    /// Changes the size.
    pub fn resize(&mut self, rows: u16, cols: u16)
        requires
            old(self).wf(),
            rows >= 1,
            cols >= 1,
        ensures
            final(self).wf(),
            final(self)@ == old(self)@.push(ScreenOp::Resized { rows, cols }),
    {
        self.uncut = self.uncut && (cols >= self.cols || self.ascii);
        self.rows = rows;
        self.cols = cols;
        set_size(&mut self.emulator, rows, cols);
        assert(self@.drop_last() =~= old(self)@);
    }

    /// The bytes that draw the screen on a terminal.
    pub fn contents(&self) -> (contents: Vec<u8>)
        requires
            drawable(self@),
        ensures
            contents@ == rendered(self@),
    {
        contents_formatted(&self.emulator)
    }

    /// The row and the column of the cursor, from zero.
    pub fn cursor(&self) -> (position: (u16, u16))
        ensures
            position == cursor_cell(self@),
    {
        cursor_position(&self.emulator)
    }
}

/// A screen has the size that it was last given: by the last resize, or when it was made. Output
/// does not change it.
pub proof fn law_last_size_counts(
    log: Seq<ScreenOp>,
    rows: u16,
    cols: u16,
    scrollback: usize,
    bytes: Seq<u8>,
)
    ensures
        log_rows(log.push(ScreenOp::Opened { rows, cols, scrollback })) == rows,
        log_cols(log.push(ScreenOp::Opened { rows, cols, scrollback })) == cols,
        log_rows(log.push(ScreenOp::Resized { rows, cols })) == rows,
        log_cols(log.push(ScreenOp::Resized { rows, cols })) == cols,
        log_rows(log.push(ScreenOp::Fed { bytes })) == log_rows(log),
        log_cols(log.push(ScreenOp::Fed { bytes })) == log_cols(log),
{
    assert(log.push(ScreenOp::Fed { bytes }).drop_last() =~= log);
}

/// All output of a screen is ASCII if and only if that of every operation on it is.
pub proof fn law_ascii_means_every_byte(log: Seq<ScreenOp>)
    ensures
        ascii_fed(log) <==> forall|k: int, i: int|
            0 <= k < log.len() && #[trigger] log[k] is Fed && 0 <= i < log[k]->bytes.len()
                ==> #[trigger] log[k]->bytes[i] < 0x80,
    decreases log.len(),
{
    if log.len() > 0 {
        let before = log.drop_last();
        law_ascii_means_every_byte(before);
        let n = before.len() as int;
        assert(forall|k: int| 0 <= k < n ==> before[k] == log[k]);
        if ascii_fed(log) {
            assert forall|k: int, i: int|
                0 <= k < log.len() && #[trigger] log[k] is Fed && 0 <= i
                    < log[k]->bytes.len() implies #[trigger] log[k]->bytes[i] < 0x80 by {
                if k < n {
                    assert(before[k] == log[k]);
                    assert(before[k]->bytes[i] < 0x80);
                }
            }
        }
        if forall|k: int, i: int|
            0 <= k < log.len() && #[trigger] log[k] is Fed && 0 <= i < log[k]->bytes.len()
                ==> #[trigger] log[k]->bytes[i] < 0x80 {
            assert forall|k: int, i: int|
                0 <= k < before.len() && #[trigger] before[k] is Fed && 0 <= i
                    < before[k]->bytes.len() implies #[trigger] before[k]->bytes[i] < 0x80 by {
                assert(log[k]->bytes[i] < 0x80);
            }
            if let ScreenOp::Fed { bytes } = log.last() {
                assert forall|i: int| 0 <= i < bytes.len() implies #[trigger] bytes[i] < 0x80 by {
                    assert(log[n]->bytes[i] < 0x80);
                }
            }
        }
    }
}

/// A new screen takes whatever output comes if it has at least two rows and three to 65527
/// columns, and can be drawn if it has a column.
pub proof fn law_new_screens(rows: u16, cols: u16, scrollback: usize)
    ensures
        ({
            let log = seq![ScreenOp::Opened { rows, cols, scrollback }];
            &&& feedable(log) <==> rows >= 2 && 3 <= cols <= 65527
            &&& drawable(log) <==> cols >= 1
        }),
{
    let log = seq![ScreenOp::Opened { rows, cols, scrollback }];
    assert(log.drop_last() =~= Seq::<ScreenOp>::empty());
    assert(log.last() == ScreenOp::Opened { rows, cols, scrollback });
    reveal_with_fuel(uncut, 2);
}

/// A screen of which nothing was cut off goes on to take whatever output comes after a resize if
/// and only if the new size is in the same bounds and nothing may be cut off now.
pub proof fn law_feedable_after_resize(log: Seq<ScreenOp>, rows: u16, cols: u16)
    requires
        feedable(log),
    ensures
        feedable(log.push(ScreenOp::Resized { rows, cols })) <==> rows >= 2 && 3 <= cols <= 65527
            && (cols >= log_cols(log) || ascii_fed(log)),
        drawable(log.push(ScreenOp::Resized { rows, cols })) <==> cols >= 2 || cols == 1
            && ascii_fed(log),
{
    assert(log.push(ScreenOp::Resized { rows, cols }).drop_last() =~= log);
}

/// A screen that takes whatever output comes can be drawn, before and after it got some.
pub proof fn law_feedable_is_drawable(log: Seq<ScreenOp>, bytes: Seq<u8>)
    requires
        feedable(log),
    ensures
        drawable(log),
        drawable(log.push(ScreenOp::Fed { bytes })),
{
    law_output_keeps_feedable(log, bytes);
}

/// A screen that takes whatever output comes still does so after it got some.
pub proof fn law_output_keeps_feedable(log: Seq<ScreenOp>, bytes: Seq<u8>)
    requires
        feedable(log),
    ensures
        feedable(log.push(ScreenOp::Fed { bytes })),
{
    assert(log.push(ScreenOp::Fed { bytes }).drop_last() =~= log);
}

/// A screen that takes whatever output comes still does so after a resize to a size in the same
/// bounds, if no columns were taken away or all output so far was ASCII.
pub proof fn law_resize_keeps_feedable(log: Seq<ScreenOp>, rows: u16, cols: u16)
    requires
        feedable(log),
        rows >= 2,
        3 <= cols <= 65527,
        cols >= log_cols(log) || ascii_fed(log),
    ensures
        feedable(log.push(ScreenOp::Resized { rows, cols })),
{
    assert(log.push(ScreenOp::Resized { rows, cols }).drop_last() =~= log);
}

} // verus!
