//! What a window's program puts out, and how a window ends.
use vstd::prelude::*;

use crate::bytes::scan_paste_mode;
use crate::mux::{LoopAction, MuxApp, MuxState, STDIN_KEY};
use crate::screen::{feedable, takes, ScreenOp};
use crate::size::TerminalSize;

verus! {

/// What has become known of a window's terminal.
#[derive(Clone, Copy, Debug, PartialEq, Eq)]
pub enum PtyEvent<'a> {
    /// The poller found it readable; nothing was read yet.
    Ready,
    /// A read gave these bytes: none, where the output has ended.
    Data(&'a [u8]),
    /// A read failed with an input/output error: the program has gone.
    Gone,
    /// A read found nothing to read.
    WouldBlock,
    /// A read was interrupted.
    Interrupted,
    /// A read failed in another way.
    Failed,
}

/// What is left to do about a window that was closed.
#[derive(Debug, PartialEq, Eq)]
pub struct ClosedWindow<H> {
    /// The handle of the window, for the poller to forget.
    pub master: H,
    /// Whether it was the last window.
    pub last: bool,
    /// The key under which the poller is to watch each window that is left.
    pub keys: Vec<usize>,
}

/// What is to be done next about a window's terminal.
#[derive(Debug, PartialEq, Eq)]
pub enum PtyStep<H> {
    /// Nothing: there is no such window.
    Ignore,
    /// To read from it. `changed` says whether the window that is shown has changed so far.
    Read { changed: bool },
    /// To have the poller forget it and watch the others under their new keys, and to report
    /// `action`.
    Closed { window: ClosedWindow<H>, action: LoopAction },
    /// To have it watched again under `key`, and to report `action`.
    Rearm { key: usize, action: LoopAction },
}

/// The key under which the poller watches each of `n` windows.
pub open spec fn watch_keys(n: nat) -> Seq<usize> {
    Seq::new(n, |i: int| (i + 1) as usize)
}

/// The event says that the window's program has ended.
pub open spec fn ends(event: PtyEvent) -> bool {
    match event {
        PtyEvent::Data(bytes) => bytes@.len() == 0,
        PtyEvent::Gone => true,
        _ => false,
    }
}

impl<H> MuxState<H> {
    /// The screen of the window at `i` takes what the event brings, if it brings anything for
    /// it.
    pub open spec fn takes_event(self, i: int, event: PtyEvent) -> bool {
        event matches PtyEvent::Data(bytes) ==> bytes@.len() > 0 && i < self.windows.len()
            ==> takes(self.windows[i].log, bytes@)
    }

    /// The screen of the window at `i` takes any output, or the event brings none for it.
    pub open spec fn surely_takes_event(self, i: int, event: PtyEvent) -> bool {
        event matches PtyEvent::Data(bytes) ==> bytes@.len() > 0 && i < self.windows.len()
            ==> feedable(self.windows[i].log)
    }

    /// `window` is what is left to do about the window at `i`.
    pub open spec fn closing(self, i: int, window: ClosedWindow<H>) -> bool {
        &&& window.master == self.windows[i].master
        &&& window.last == (self.windows.len() == 1)
        &&& window.keys@ == watch_keys((self.windows.len() - 1) as nat)
    }

    /// `step` is right for the event on the window at `i`, where `changed` says whether the
    /// window that is shown has changed so far and `after` is the state that the step leaves.
    pub open spec fn pty_step(
        self,
        i: int,
        event: PtyEvent,
        changed: bool,
        step: PtyStep<H>,
        after: Self,
    ) -> bool {
        if i >= self.windows.len() {
            step is Ignore && after == self
        } else if ends(event) {
            &&& step matches PtyStep::Closed { window, action } && self.closing(i, window)
                && action == if self.windows.len() == 1 {
                LoopAction::Exit
            } else {
                LoopAction::Redraw
            }
            &&& after == self.closed(i)
        } else {
            match event {
                PtyEvent::Data(bytes) => {
                    &&& step == PtyStep::<H>::Read { changed: changed || i == self.current }
                    &&& after == self.fed(i, bytes@)
                },
                PtyEvent::Ready | PtyEvent::Interrupted => {
                    step == PtyStep::<H>::Read { changed } && after == self
                },
                _ => {
                    &&& step == PtyStep::<H>::Rearm {
                        key: (i + 1) as usize,
                        action: if changed {
                            LoopAction::Redraw
                        } else {
                            LoopAction::Continue
                        },
                    }
                    &&& after == self
                },
            }
        }
    }
}

/// The key under which the poller watches each of `n` windows.
fn all_watch_keys(n: usize) -> (keys: Vec<usize>)
    ensures
        keys@ == watch_keys(n as nat),
{
    let mut keys: Vec<usize> = Vec::new();
    let mut i: usize = 0;
    while i < n
        invariant
            i <= n,
            keys@ =~= watch_keys(i as nat),
        decreases n - i,
    {
        keys.push(i + 1);
        i += 1;
    }
    keys
}

impl<H> MuxApp<H> {
    /// Closes the window at `win_idx`.
    pub fn close_window(&mut self, win_idx: usize) -> (window: ClosedWindow<H>)
        requires
            old(self).wf(),
            win_idx < old(self)@.windows.len(),
        ensures
            final(self).wf(),
            old(self).inv() && old(self)@.windows.len() > 1 ==> final(self).inv(),
            final(self)@ == old(self)@.closed(win_idx as int),
            old(self)@.closing(win_idx as int, window),
    {
        let closed = self.windows.remove(win_idx);
        proof {
            assert(self@.windows =~= old(self)@.windows.remove(win_idx as int));
            assert(old(self).windows@[win_idx as int]@ == old(self)@.windows[win_idx as int]);
            assert forall|j: int| 0 <= j < self.windows@.len() implies (
            #[trigger] self.windows@[j]).screen.wf() by {
                let k = if j < win_idx { j } else { j + 1 };
                assert(self.windows@[j] == old(self).windows@[k]);
            }
        }
        let left: usize = self.windows.len();
        if left == 0 {
            return ClosedWindow { master: closed.master, last: true, keys: all_watch_keys(0) };
        }
        let keys = all_watch_keys(left);
        if self.current_window_idx >= left {
            self.current_window_idx = left - 1;
        }
        ClosedWindow { master: closed.master, last: false, keys }
    }

    /// Handles an event on the terminal of the window at `win_idx`.
    pub fn handle_pty(&mut self, win_idx: usize, event: PtyEvent, changed: bool) -> (step: PtyStep<
        H,
    >)
        requires
            old(self).wf(),
            old(self)@.takes_event(win_idx as int, event),
        ensures
            final(self).wf(),
            old(self).inv() && !(step matches PtyStep::Closed { window, .. } && window.last)
                ==> final(self).inv(),
            old(self)@.pty_step(win_idx as int, event, changed, step, final(self)@),
    {
        if win_idx >= self.windows.len() {
            return PtyStep::Ignore;
        }
        let bytes: &[u8] = match event {
            PtyEvent::Ready | PtyEvent::Interrupted => {
                return PtyStep::Read { changed };
            },
            PtyEvent::WouldBlock | PtyEvent::Failed => {
                let action = if changed {
                    LoopAction::Redraw
                } else {
                    LoopAction::Continue
                };
                return PtyStep::Rearm { key: win_idx + 1, action };
            },
            PtyEvent::Gone => {
                return self.end_window(win_idx);
            },
            PtyEvent::Data(bytes) => bytes,
        };
        if bytes.len() == 0 {
            return self.end_window(win_idx);
        }
        let paste = scan_paste_mode(self.windows[win_idx].bracketed_paste, bytes);
        assert(old(self)@.windows[win_idx as int] == old(self).windows@[win_idx as int]@);
        self.windows[win_idx].bracketed_paste = paste;
        self.windows[win_idx].screen.feed(bytes);
        assert(self@.windows =~= old(self)@.fed(win_idx as int, bytes@).windows);
        PtyStep::Read { changed: changed || win_idx == self.current_window_idx }
    }

    /// Closes the window at `win_idx`, whose program has ended.
    fn end_window(&mut self, win_idx: usize) -> (step: PtyStep<H>)
        requires
            old(self).wf(),
            win_idx < old(self)@.windows.len(),
        ensures
            final(self).wf(),
            old(self).inv() && old(self)@.windows.len() > 1 ==> final(self).inv(),
            final(self)@ == old(self)@.closed(win_idx as int),
            step matches PtyStep::Closed { window, action } && old(self)@.closing(
                win_idx as int,
                window,
            ) && action == if old(self)@.windows.len() == 1 {
                LoopAction::Exit
            } else {
                LoopAction::Redraw
            },
    {
        let window = self.close_window(win_idx);
        let action = if window.last {
            LoopAction::Exit
        } else {
            LoopAction::Redraw
        };
        PtyStep::Closed { window, action }
    }

    /// Handles an event on the terminal of the window at `win_idx`, unless it brings output for
    /// a screen that does not take everything: then nothing happens, and the result is `None`.
    pub fn try_handle_pty(&mut self, win_idx: usize, event: PtyEvent, changed: bool) -> (step:
        Option<PtyStep<H>>)
        requires
            old(self).wf(),
        ensures
            final(self).wf(),
            step is Some <==> old(self)@.surely_takes_event(win_idx as int, event),
            match step {
                Some(step) => {
                    &&& old(self)@.pty_step(win_idx as int, event, changed, step, final(self)@)
                    &&& old(self).inv() && !(step matches PtyStep::Closed { window, .. }
                        && window.last) ==> final(self).inv()
                },
                None => *final(self) == *old(self),
            },
    {
        if win_idx < self.windows.len() {
            assert(self@.windows[win_idx as int] == self.windows@[win_idx as int]@);
            if let PtyEvent::Data(bytes) = event {
                if bytes.len() > 0 && !self.windows[win_idx].screen.is_feedable() {
                    return None;
                }
            }
        }
        Some(self.handle_pty(win_idx, event, changed))
    }
}

/// The window at each index is watched under the index plus one.
pub proof fn law_keys_count_from_one(n: nat, i: int)
    requires
        0 <= i < n <= usize::MAX,
    ensures
        watch_keys(n).len() == n,
        watch_keys(n)[i] == i + 1,
{
}

/// A window is opened under the key that belongs to its place: that of the last window once it is
/// there, which is the key of no window before it and not that of standard input.
pub proof fn law_next_key_is_the_new_windows<H>(
    state: MuxState<H>,
    master: H,
    host: TerminalSize,
    i: int,
)
    requires
        state.windows.len() < usize::MAX,
    ensures
        state.next_watch_key() == watch_keys(state.spawned(master, host).windows.len()).last(),
        0 <= i < state.windows.len() ==> state.next_watch_key() != watch_keys(
            state.windows.len(),
        )[i],
        state.next_watch_key() != STDIN_KEY,
{
}

/// What an event on a terminal does, for every window and whatever has changed so far. An event of
/// no window does nothing. One that brings output has it shown and the next piece read; the change
/// is remembered, and reported if the window is shown. One that brings nothing has it read again.
/// Once nothing is left to read, or the read failed, the window is watched again under its key,
/// and a redraw is asked for if anything changed.
pub proof fn law_what_a_terminal_event_does<H>(
    state: MuxState<H>,
    i: int,
    event: PtyEvent,
    changed: bool,
    step: PtyStep<H>,
    after: MuxState<H>,
)
    requires
        0 <= i < usize::MAX,
        state.pty_step(i, event, changed, step, after),
    ensures
        ({
            let known = i < state.windows.len();
            &&& !known <==> step is Ignore
            &&& !known ==> after == state
            &&& known && (event is Ready || event is Interrupted) ==> after == state && step
                == (PtyStep::<H>::Read { changed })
            &&& known && (event is WouldBlock || event is Failed) ==> after == state && (
            step matches PtyStep::Rearm { key, action } && key == i + 1 && (action is Redraw
                <==> changed) && (action is Continue <==> !changed))
            &&& known ==> (event matches PtyEvent::Data(bytes) ==> bytes@.len() > 0 ==> {
                &&& step == (PtyStep::<H>::Read { changed: changed || i == state.current })
                &&& after == state.fed(i, bytes@)
            })
        }),
{
}

/// A window is closed when its program has ended, and only then: when a read gives nothing, or
/// says that the program is gone. What is left to do is about that window's terminal, and hands
/// out the keys of the windows that are left, counted from one. The loop is left with the last
/// window, and a redraw is asked for otherwise.
pub proof fn law_an_ended_program_closes_its_window<H>(
    state: MuxState<H>,
    i: int,
    event: PtyEvent,
    changed: bool,
    step: PtyStep<H>,
    after: MuxState<H>,
    j: int,
)
    requires
        0 <= i < state.windows.len() <= usize::MAX,
        state.pty_step(i, event, changed, step, after),
    ensures
        step is Closed <==> event is Gone || (event matches PtyEvent::Data(bytes) && bytes@.len()
            == 0),
        step matches PtyStep::Closed { window, action } ==> {
            &&& window.master == state.windows[i].master
            &&& window.last <==> state.windows.len() == 1
            &&& window.keys@.len() == state.windows.len() - 1
            &&& 0 <= j < window.keys@.len() ==> window.keys@[j] == j + 1
            &&& action is Exit <==> state.windows.len() == 1
            &&& action is Redraw <==> state.windows.len() > 1
            &&& after == state.closed(i)
        },
{
}

/// What is left to do about a window that was closed is about its terminal, and hands out the keys
/// of the windows that are left.
pub proof fn law_closing_renumbers<H>(
    state: MuxState<H>,
    i: int,
    window: ClosedWindow<H>,
    j: int,
)
    requires
        0 <= i < state.windows.len() <= usize::MAX,
        state.closing(i, window),
    ensures
        window.master == state.windows[i].master,
        window.last <==> state.closed(i).windows.len() == 0,
        window.keys@.len() == state.closed(i).windows.len(),
        0 <= j < window.keys@.len() ==> window.keys@[j] == j + 1,
{
}

/// An event is handled without question unless it brings output for a screen that does not take
/// everything: an event of no window is, and so is one without output. Whatever is handled so is
/// taken by the screen.
pub proof fn law_what_is_surely_handled<H>(state: MuxState<H>, i: int, event: PtyEvent)
    ensures
        event !is Data ==> state.surely_takes_event(i, event),
        i >= state.windows.len() ==> state.surely_takes_event(i, event),
        event matches PtyEvent::Data(bytes) ==> bytes@.len() == 0 ==> state.surely_takes_event(
            i,
            event,
        ),
        event matches PtyEvent::Data(bytes) ==> bytes@.len() > 0 && i < state.windows.len() ==> (
        state.surely_takes_event(i, event) <==> feedable(state.windows[i].log)),
        state.surely_takes_event(i, event) ==> state.takes_event(i, event),
{
}

/// There is a window to show after every change but the close of the last window.
pub proof fn law_stays_live<H>(
    state: MuxState<H>,
    master: H,
    host: TerminalSize,
    i: int,
    bytes: Seq<u8>,
    rows: u16,
    cols: u16,
)
    requires
        state.live(),
        0 <= i < state.windows.len(),
    ensures
        state.spawned(master, host).live(),
        state.fed(i, bytes).live(),
        state.resized(rows, cols).live(),
        state.closed(i).live() <==> state.windows.len() > 1,
{
}

/// Output of one window changes no other window, nor which one is shown.
pub proof fn law_output_stays_in_its_window<H>(state: MuxState<H>, i: int, bytes: Seq<u8>, j: int)
    requires
        0 <= i < state.windows.len(),
        0 <= j < state.windows.len(),
        i != j,
    ensures
        state.fed(i, bytes).windows[j] == state.windows[j],
        state.fed(i, bytes).windows.len() == state.windows.len(),
        state.fed(i, bytes).current == state.current,
        state.fed(i, bytes).prefix_mode == state.prefix_mode,
{
}

/// Closing the window that was just opened gives back the windows that there were; the last of
/// them is shown.
pub proof fn law_open_then_close<H>(state: MuxState<H>, master: H, host: TerminalSize)
    requires
        state.live(),
    ensures
        state.spawned(master, host).closed(state.windows.len() as int) == (MuxState {
            current: state.windows.len() - 1,
            ..state
        }),
{
    assert(state.spawned(master, host).windows.remove(state.windows.len() as int)
        =~= state.windows);
}

/// The keys under which the poller watches the windows stay in step with the windows: the key of
/// a new window goes behind those that there are, a close hands out the keys of the windows that
/// are left, and a window is watched again under the key that it has.
pub proof fn law_keys_follow_windows<H>(
    state: MuxState<H>,
    master: H,
    host: TerminalSize,
    i: int,
    event: PtyEvent,
    changed: bool,
    step: PtyStep<H>,
    after: MuxState<H>,
)
    requires
        0 <= i,
        state.pty_step(i, event, changed, step, after),
    ensures
        watch_keys(state.spawned(master, host).windows.len()) == watch_keys(
            state.windows.len(),
        ).push((state.windows.len() + 1) as usize),
        step matches PtyStep::Closed { window, .. } ==> window.keys@ == watch_keys(
            after.windows.len(),
        ),
        step matches PtyStep::Rearm { key, .. } ==> key == watch_keys(after.windows.len())[i],
{
    assert(watch_keys(state.spawned(master, host).windows.len()) =~= watch_keys(
        state.windows.len(),
    ).push((state.windows.len() + 1) as usize));
}

/// A window's program ending is the only event on a terminal that closes a window, and the loop
/// is left if and only if no window is left.
pub proof fn law_exit_with_the_last_window<H>(
    state: MuxState<H>,
    i: int,
    event: PtyEvent,
    changed: bool,
    step: PtyStep<H>,
    after: MuxState<H>,
)
    requires
        state.live(),
        0 <= i,
        state.pty_step(i, event, changed, step, after),
    ensures
        step is Closed <==> i < state.windows.len() && ends(event),
        after.windows.len() == (if step is Closed {
            state.windows.len() - 1
        } else {
            state.windows.len() as int
        }),
        (step matches PtyStep::Closed { action, .. } && action is Exit) <==> after.windows.len()
            == 0,
{
}

impl<H> MuxState<H> {
    /// The state after the program of the window at `i` put out some pieces, one after another.
    pub open spec fn fed_all(self, i: int, pieces: Seq<Seq<u8>>) -> Self
        decreases pieces.len(),
    {
        if pieces.len() == 0 {
            self
        } else {
            self.fed_all(i, pieces.drop_last()).fed(i, pieces.last())
        }
    }
}

/// Everything that a window's program puts out reaches the window's screen, once and in order,
/// and nothing else does.
pub proof fn law_output_arrives_in_order<H>(state: MuxState<H>, i: int, pieces: Seq<Seq<u8>>)
    requires
        0 <= i < state.windows.len(),
    ensures
        state.fed_all(i, pieces).windows.len() == state.windows.len(),
        state.fed_all(i, pieces).windows[i].log == state.windows[i].log + pieces.map_values(
            |bytes: Seq<u8>| ScreenOp::Fed { bytes },
        ),
    decreases pieces.len(),
{
    let op = |bytes: Seq<u8>| ScreenOp::Fed { bytes };
    if pieces.len() > 0 {
        let before = pieces.drop_last();
        law_output_arrives_in_order(state, i, before);
        assert(pieces.map_values(op) =~= before.map_values(op).push(op(pieces.last())));
    }
    assert(state.fed_all(i, pieces).windows[i].log =~= state.windows[i].log + pieces.map_values(
        op,
    ));
}

/// The event asks to read again.
pub open spec fn asks_to_read(event: PtyEvent) -> bool {
    match event {
        PtyEvent::Ready | PtyEvent::Interrupted => true,
        PtyEvent::Data(bytes) => bytes@.len() > 0,
        _ => false,
    }
}

impl<H> MuxState<H> {
    /// Whether the window that is shown has changed, and the state, after some events on the
    /// terminal of the window at `i` that each ask to read again.
    pub open spec fn after_reads(self, i: int, events: Seq<PtyEvent>) -> (bool, Self)
        decreases events.len(),
    {
        if events.len() == 0 {
            (false, self)
        } else {
            let (changed, before) = self.after_reads(i, events.drop_last());
            match events.last() {
                PtyEvent::Data(bytes) => (changed || i == before.current, before.fed(i, bytes@)),
                _ => (changed, before),
            }
        }
    }
}

/// However a window's output was split and its reads interrupted, once nothing is left to read a
/// redraw is asked for if and only if there was output and the window is shown.
pub proof fn law_redraw_for_shown_output<H>(
    state: MuxState<H>,
    i: int,
    events: Seq<PtyEvent>,
    step: PtyStep<H>,
    after: MuxState<H>,
)
    requires
        0 <= i < state.windows.len(),
        forall|k: int| 0 <= k < events.len() ==> asks_to_read(#[trigger] events[k]),
        state.after_reads(i, events).1.pty_step(
            i,
            PtyEvent::WouldBlock,
            state.after_reads(i, events).0,
            step,
            after,
        ),
    ensures
        step matches PtyStep::Rearm { action, .. } && action == if i == state.current && exists|
            k: int,
        |
            0 <= k < events.len() && #[trigger] events[k] is Data {
            LoopAction::Redraw
        } else {
            LoopAction::Continue
        },
{
    lemma_after_reads(state, i, events);
}

/// `after_reads` goes from event to event as the steps for them do.
pub proof fn law_reads_follow_the_steps<H>(state: MuxState<H>, i: int, events: Seq<PtyEvent>)
    requires
        0 <= i < state.windows.len(),
        events.len() > 0,
        forall|k: int| 0 <= k < events.len() ==> asks_to_read(#[trigger] events[k]),
    ensures
        ({
            let (changed, before) = state.after_reads(i, events.drop_last());
            let (reported, after) = state.after_reads(i, events);
            before.pty_step(
                i,
                events.last(),
                changed,
                PtyStep::<H>::Read { changed: reported },
                after,
            )
        }),
{
    let earlier = events.drop_last();
    assert forall|k: int| 0 <= k < earlier.len() implies asks_to_read(#[trigger] earlier[k]) by {
        assert(asks_to_read(events[k]));
    }
    lemma_after_reads(state, i, earlier);
    assert(asks_to_read(events[events.len() - 1]));
}

/// What reads of a window's output come to.
proof fn lemma_after_reads<H>(state: MuxState<H>, i: int, events: Seq<PtyEvent>)
    requires
        0 <= i < state.windows.len(),
        forall|k: int| 0 <= k < events.len() ==> asks_to_read(#[trigger] events[k]),
    ensures
        state.after_reads(i, events).0 <==> i == state.current && exists|k: int|
            0 <= k < events.len() && #[trigger] events[k] is Data,
        state.after_reads(i, events).1.current == state.current,
        state.after_reads(i, events).1.windows.len() == state.windows.len(),
    decreases events.len(),
{
    if events.len() > 0 {
        let earlier = events.drop_last();
        assert forall|k: int| 0 <= k < earlier.len() implies asks_to_read(
            #[trigger] earlier[k],
        ) by {
            assert(asks_to_read(events[k]));
        }
        lemma_after_reads(state, i, earlier);
        if exists|k: int| 0 <= k < earlier.len() && #[trigger] earlier[k] is Data {
            let k = choose|k: int| 0 <= k < earlier.len() && #[trigger] earlier[k] is Data;
            assert(events[k] is Data);
        }
        if exists|k: int| 0 <= k < events.len() && #[trigger] events[k] is Data {
            let k = choose|k: int| 0 <= k < events.len() && #[trigger] events[k] is Data;
            if k < earlier.len() {
                assert(earlier[k] is Data);
            }
        }
        if events.last() is Data {
            assert(events[events.len() - 1] is Data);
        }
    }
}

} // verus!
