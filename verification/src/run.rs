//! The event loop: what comes next, after each thing that the program around it has done.
use vstd::prelude::*;

use crate::mux::{LoopAction, MuxApp, MuxState, ResizeNotice, STDIN_KEY};
use crate::pty::watch_keys;
use crate::size::{window_rows, TerminalSize};

verus! {

/// Whose event a poller key stands for.
#[derive(Clone, Copy, Debug, PartialEq, Eq, Structural)]
pub enum EventSource {
    Stdin,
    Pty(usize),
}

/// How a wait for events ended.
#[derive(Clone, Copy, Debug, PartialEq, Eq, Structural)]
pub enum WaitOutcome {
    Ready,
    Interrupted,
    Failed,
}

/// What was just done.
#[derive(Clone, Copy, Debug, PartialEq, Eq)]
pub enum RunEvent {
    /// The program has started.
    Started,
    /// The poller watches what it was told to.
    Registered,
    /// The interface was drawn.
    Drawn,
    /// It was found out whether the host terminal was resized since the last look. Where it
    /// was, this is its size.
    ResizeChecked(Option<TerminalSize>),
    /// The window's terminal was told its size.
    Told,
    /// A wait for events ended.
    Waited(WaitOutcome),
    /// The wait brought an event with this key.
    Polled(usize),
    /// The event was handled.
    Served(LoopAction),
    /// The wait brought no further event.
    BatchDone,
    /// What was asked for, other than to wait, failed.
    Failed,
}

/// What is to be done next.
#[derive(Clone, Copy, Debug, PartialEq, Eq)]
pub enum RunCommand {
    /// To have standard input watched, and the first window under this key, if there is one.
    Register { window_key: Option<usize> },
    /// To draw the interface.
    Draw,
    /// To find out whether the host terminal was resized.
    CheckResize,
    /// To tell one window's terminal its size.
    Tell(ResizeNotice),
    /// To wait for events.
    Wait,
    /// To take the next event that the wait brought.
    NextEvent,
    /// To handle an event from there.
    Serve(EventSource),
    /// To leave the loop.
    Stop,
    /// To leave the loop with the error of what failed.
    Fail,
}

/// What is to be done next, and whether there is something new to draw.
#[derive(Clone, Copy, Debug, PartialEq, Eq)]
pub struct RunStep {
    pub changed: bool,
    pub command: RunCommand,
}

/// Whose event a key stands for.
pub open spec fn source_of(key: usize) -> EventSource {
    if key == STDIN_KEY {
        EventSource::Stdin
    } else {
        EventSource::Pty((key - 1) as usize)
    }
}

impl<H> MuxState<H> {
    /// What comes after `event`, where `changed` says whether there is something new to draw.
    pub open spec fn run_step(self, changed: bool, event: RunEvent) -> RunStep {
        match event {
            RunEvent::Started => RunStep {
                changed: false,
                command: RunCommand::Register {
                    window_key: if self.windows.len() > 0 {
                        Some(1)
                    } else {
                        None
                    },
                },
            },
            RunEvent::Registered => RunStep { changed: false, command: RunCommand::Draw },
            RunEvent::Drawn => RunStep { changed: false, command: RunCommand::CheckResize },
            RunEvent::ResizeChecked(None) => RunStep { changed: false, command: RunCommand::Wait },
            RunEvent::ResizeChecked(Some(host)) => RunStep {
                changed: true,
                command: RunCommand::Tell(self.resize_notice(host)),
            },
            RunEvent::Told => RunStep { changed, command: RunCommand::Wait },
            RunEvent::Waited(WaitOutcome::Ready) => RunStep {
                changed,
                command: RunCommand::NextEvent,
            },
            RunEvent::Waited(WaitOutcome::Interrupted) => RunStep {
                changed: false,
                command: RunCommand::CheckResize,
            },
            RunEvent::Waited(WaitOutcome::Failed) => RunStep { changed, command: RunCommand::Fail },
            RunEvent::Polled(key) => RunStep {
                changed,
                command: RunCommand::Serve(source_of(key)),
            },
            RunEvent::Served(action) => RunStep {
                changed: changed || action is Redraw,
                command: if action is Exit {
                    RunCommand::Stop
                } else {
                    RunCommand::NextEvent
                },
            },
            RunEvent::BatchDone => RunStep {
                changed: false,
                command: if changed {
                    RunCommand::Draw
                } else {
                    RunCommand::CheckResize
                },
            },
            RunEvent::Failed => RunStep { changed, command: RunCommand::Fail },
        }
    }

    /// The state after an event of the loop: only a resize changes it.
    pub open spec fn after_run(self, event: RunEvent) -> Self {
        match event {
            RunEvent::ResizeChecked(Some(host)) => self.resized(
                window_rows(host.ws_row),
                host.ws_col,
            ),
            _ => self,
        }
    }
}

/// Whose event a key stands for.
pub fn route_event(key: usize) -> (source: EventSource)
    ensures
        source == source_of(key),
{
    if key == STDIN_KEY {
        EventSource::Stdin
    } else {
        EventSource::Pty(key - 1)
    }
}

impl<H> MuxApp<H> {
    /// Goes one step further in the event loop.
    pub fn run(&mut self, changed: bool, event: RunEvent) -> (step: RunStep)
        requires
            old(self).wf(),
            event matches RunEvent::ResizeChecked(Some(host)) ==> old(self).inv() && host.ws_row
                >= 1 && host.ws_col >= 1,
        ensures
            final(self).wf(),
            old(self).inv() ==> final(self).inv(),
            final(self)@ == old(self)@.after_run(event),
            step == old(self)@.run_step(changed, event),
    {
        match event {
            RunEvent::Started => {
                let window_key: Option<usize> = if self.windows.len() > 0 {
                    Some(1)
                } else {
                    None
                };
                RunStep { changed: false, command: RunCommand::Register { window_key } }
            },
            RunEvent::Registered => RunStep { changed: false, command: RunCommand::Draw },
            RunEvent::Drawn => RunStep { changed: false, command: RunCommand::CheckResize },
            RunEvent::ResizeChecked(None) => RunStep { changed: false, command: RunCommand::Wait },
            RunEvent::ResizeChecked(Some(host)) => {
                let notice = self.handle_terminal_resize(host);
                RunStep { changed: true, command: RunCommand::Tell(notice) }
            },
            RunEvent::Told => RunStep { changed, command: RunCommand::Wait },
            RunEvent::Waited(WaitOutcome::Ready) => RunStep {
                changed,
                command: RunCommand::NextEvent,
            },
            RunEvent::Waited(WaitOutcome::Interrupted) => RunStep {
                changed: false,
                command: RunCommand::CheckResize,
            },
            RunEvent::Waited(WaitOutcome::Failed) => RunStep { changed, command: RunCommand::Fail },
            RunEvent::Polled(key) => RunStep {
                changed,
                command: RunCommand::Serve(route_event(key)),
            },
            RunEvent::Served(LoopAction::Exit) => RunStep { changed, command: RunCommand::Stop },
            RunEvent::Served(LoopAction::Redraw) => RunStep {
                changed: true,
                command: RunCommand::NextEvent,
            },
            RunEvent::Served(LoopAction::Continue) => RunStep {
                changed,
                command: RunCommand::NextEvent,
            },
            RunEvent::BatchDone => {
                let command = if changed {
                    RunCommand::Draw
                } else {
                    RunCommand::CheckResize
                };
                RunStep { changed: false, command }
            },
            RunEvent::Failed => RunStep { changed, command: RunCommand::Fail },
        }
    }
}

/// The event of a window that is watched under its key is handled as an event of that window,
/// and no window's key is that of standard input.
pub proof fn law_events_reach_their_window(windows: nat, i: int)
    requires
        windows <= usize::MAX,
        0 <= i < windows,
    ensures
        source_of(watch_keys(windows)[i]) == EventSource::Pty(i as usize),
        source_of(STDIN_KEY) == EventSource::Stdin,
        watch_keys(windows)[i] != STDIN_KEY,
{
}

/// Whether there is something new to draw after a batch of events was handled with these
/// actions, in order, or `None` where the loop was left. `states` are those in which each event
/// of the loop comes.
pub open spec fn after_actions<H>(
    states: Seq<MuxState<H>>,
    changed: bool,
    actions: Seq<LoopAction>,
) -> Option<bool>
    decreases actions.len(),
{
    if actions.len() == 0 {
        Some(changed)
    } else {
        match after_actions(states.drop_last(), changed, actions.drop_last()) {
            None => None,
            Some(so_far) => {
                let step = states.last().run_step(so_far, RunEvent::Served(actions.last()));
                if step.command is Stop {
                    None
                } else {
                    Some(step.changed)
                }
            },
        }
    }
}

/// The loop is left in the course of a batch if and only if one of its actions says so, whatever
/// else happened. Otherwise the interface is drawn once after the batch if the host was resized
/// before it or any action asks for it, and not at all if not.
pub proof fn law_one_draw_per_batch<H>(
    before: MuxState<H>,
    host: Option<TerminalSize>,
    states: Seq<MuxState<H>>,
    actions: Seq<LoopAction>,
    after: MuxState<H>,
)
    requires
        states.len() == actions.len(),
    ensures
        ({
            let changed = before.run_step(false, RunEvent::ResizeChecked(host)).changed;
            match after_actions(states, changed, actions) {
                None => actions.contains(LoopAction::Exit),
                Some(changed) => {
                    &&& !actions.contains(LoopAction::Exit)
                    &&& after.run_step(changed, RunEvent::BatchDone).command == if host is Some
                        || actions.contains(LoopAction::Redraw) {
                        RunCommand::Draw
                    } else {
                        RunCommand::CheckResize
                    }
                },
            }
        }),
{
    lemma_after_actions(states, host is Some, actions);
}

/// What a batch of actions comes to.
proof fn lemma_after_actions<H>(
    states: Seq<MuxState<H>>,
    changed: bool,
    actions: Seq<LoopAction>,
)
    requires
        states.len() == actions.len(),
    ensures
        after_actions(states, changed, actions) == (if actions.contains(LoopAction::Exit) {
            None
        } else {
            Some(changed || actions.contains(LoopAction::Redraw))
        }),
    decreases actions.len(),
{
    if actions.len() > 0 {
        let before = actions.drop_last();
        lemma_after_actions(states.drop_last(), changed, before);
        assert(actions =~= before.push(actions.last()));
        assert forall|action: LoopAction| actions.contains(action) <==> before.contains(action)
            || action == actions.last() by {
            if before.contains(action) {
                let k = choose|k: int| 0 <= k < before.len() && before[k] == action;
                assert(actions[k] == action);
            }
            if action == actions.last() {
                assert(actions[actions.len() - 1] == action);
            }
        }
    }
}

/// A resize of the host is the only thing on which a window's terminal is told a size. It is
/// told once: the loop goes on to wait. Where there was no resize, it waits at once.
pub proof fn law_a_resize_is_told_once<H>(state: MuxState<H>, changed: bool, event: RunEvent)
    ensures
        state.run_step(changed, event).command is Tell <==> (event matches RunEvent::ResizeChecked(
            host,
        ) && host is Some),
        event matches RunEvent::ResizeChecked(Some(host)) ==> state.run_step(changed, event).command
            == RunCommand::Tell(state.resize_notice(host)),
        state.run_step(changed, RunEvent::Told).command is Wait,
        state.run_step(changed, RunEvent::ResizeChecked(None)).command is Wait,
{
}

/// The event can be what comes of the command.
pub open spec fn answers(command: RunCommand, event: RunEvent) -> bool {
    match command {
        RunCommand::Register { .. } => event is Registered || event is Failed,
        RunCommand::Draw => event is Drawn || event is Failed,
        RunCommand::CheckResize => event is ResizeChecked,
        RunCommand::Tell(_) => event is Told,
        RunCommand::Wait => event is Waited,
        RunCommand::NextEvent => event is Polled || event is BatchDone,
        RunCommand::Serve(_) => event is Served || event is Failed,
        RunCommand::Stop | RunCommand::Fail => false,
    }
}

/// One round of the loop, whole or up to some point in it: it begins with the look for a resize
/// and ends before the next one. Each of `events` is what came of the command in the step beside
/// it, in the state beside it, and the next step is the one that goes with it.
pub open spec fn is_round<H>(
    states: Seq<MuxState<H>>,
    steps: Seq<RunStep>,
    events: Seq<RunEvent>,
) -> bool {
    &&& states.len() == events.len()
    &&& steps.len() == events.len() + 1
    &&& events.len() > 0
    &&& forall|k: int|
        0 <= k < events.len() ==> (#[trigger] steps[k].command is CheckResize <==> k == 0)
    &&& forall|k: int|
        0 <= k < events.len() ==> answers(#[trigger] steps[k].command, events[k])
    &&& forall|k: int|
        0 < k < steps.len() ==> #[trigger] steps[k] == states[k - 1].run_step(
            steps[k - 1].changed,
            events[k - 1],
        )
}

/// A round resizes the screens once, at its beginning, if the host was found resized, and not at
/// all if not: no other event in it changes the state. It waits at most once: after the window's
/// terminal was told of the resize, or at once if there was none.
pub proof fn law_one_resize_per_round<H>(
    states: Seq<MuxState<H>>,
    steps: Seq<RunStep>,
    events: Seq<RunEvent>,
    k: int,
)
    requires
        is_round(states, steps, events),
        0 <= k < events.len(),
    ensures
        ({
            let found = events[0]->ResizeChecked_0;
            &&& events[0] is ResizeChecked
            &&& states[k].after_run(events[k]) == if k == 0 && found is Some {
                states[k].resized(window_rows(found->0.ws_row), found->0.ws_col)
            } else {
                states[k]
            }
            &&& steps[k].command is Wait ==> k == if found is Some {
                2int
            } else {
                1
            }
            &&& k == 1 && found is None ==> steps[k].command is Wait
            &&& k == 1 && found is Some ==> steps[k].command == RunCommand::Tell(
                states[0].resize_notice(found->0),
            )
            &&& k == 2 && found is Some ==> steps[k].command is Wait
        }),
{
    assert(answers(steps[0].command, events[0]));
    assert(answers(steps[k].command, events[k]));
    if k >= 1 {
        assert(steps[k] == states[k - 1].run_step(steps[k - 1].changed, events[k - 1]));
        assert(answers(steps[k - 1].command, events[k - 1]));
    }
    if k >= 2 {
        assert(steps[k - 1] == states[k - 2].run_step(steps[k - 2].changed, events[k - 2]));
        assert(answers(steps[k - 2].command, events[k - 2]));
    }
}

/// Among the first `k` events of a round is one that asks for a redraw: the host was found
/// resized, or an event was handled with that action.
pub open spec fn redraw_due(events: Seq<RunEvent>, k: int) -> bool {
    ||| events[0]->ResizeChecked_0 is Some
    ||| exists|j: int| 0 <= j < k && #[trigger] events[j] == RunEvent::Served(LoopAction::Redraw)
}

/// Where a round has come to after its first event: it is not back at its beginning, and what was
/// asked for is remembered; or it is drawing.
proof fn lemma_round<H>(
    states: Seq<MuxState<H>>,
    steps: Seq<RunStep>,
    events: Seq<RunEvent>,
    k: int,
)
    requires
        is_round(states, steps, events),
        1 <= k < events.len(),
    ensures
        steps[k].command is Draw || {
            &&& steps[k].changed == redraw_due(events, k)
            &&& steps[k].command is Tell || steps[k].command is Wait || steps[k].command
                is NextEvent || steps[k].command is Serve
        },
    decreases k,
{
    assert(answers(steps[0].command, events[0]));
    assert(answers(steps[k].command, events[k]));
    assert(answers(steps[k - 1].command, events[k - 1]));
    assert(steps[k] == states[k - 1].run_step(steps[k - 1].changed, events[k - 1]));
    assert(!(steps[k].command is CheckResize));
    if k > 1 {
        lemma_round(states, steps, events, k - 1);
        assert(redraw_due(events, k) == (redraw_due(events, k - 1) || events[k - 1]
            == RunEvent::Served(LoopAction::Redraw)));
    }
}

/// What asks for a redraw is not forgotten, whatever else the round brings: up to the end of the
/// batch, there is something new to draw at every step if and only if the host was found resized
/// or an event before that step was handled with a redraw. So the interface is drawn after the
/// batch in just those rounds.
pub proof fn law_round_draws_what_changed<H>(
    states: Seq<MuxState<H>>,
    steps: Seq<RunStep>,
    events: Seq<RunEvent>,
    k: int,
)
    requires
        is_round(states, steps, events),
        1 <= k < events.len(),
    ensures
        steps[k].command is Draw || steps[k].changed == redraw_due(events, k),
        events[k] is BatchDone ==> steps[k + 1] == (RunStep {
            changed: false,
            command: if redraw_due(events, k) {
                RunCommand::Draw
            } else {
                RunCommand::CheckResize
            },
        }),
{
    lemma_round(states, steps, events, k);
    assert(answers(steps[k].command, events[k]));
    assert(steps[k + 1] == states[k].run_step(steps[k].changed, events[k]));
}

/// The loop begins by having standard input watched, and the first window too if there is one,
/// under the key of that window. Then it draws, and after every drawing it starts a round, with
/// nothing new to draw.
pub proof fn law_loop_begins<H>(state: MuxState<H>, changed: bool)
    ensures
        state.run_step(changed, RunEvent::Started).command == (RunCommand::Register {
            window_key: if state.windows.len() > 0 {
                Some(watch_keys(state.windows.len())[0])
            } else {
                None
            },
        }),
        state.run_step(changed, RunEvent::Registered).command is Draw,
        state.run_step(changed, RunEvent::Drawn) == (RunStep {
            changed: false,
            command: RunCommand::CheckResize,
        }),
{
}

/// Every event that a wait brings is handled, and by whom its key says, whatever is to be drawn
/// and however many windows there are. After each the next one is taken, unless the loop is left.
pub proof fn law_every_event_is_served<H>(
    state: MuxState<H>,
    changed: bool,
    key: usize,
    action: LoopAction,
)
    ensures
        ({
            let polled = state.run_step(changed, RunEvent::Polled(key));
            let served = state.run_step(changed, RunEvent::Served(action));
            &&& state.run_step(changed, RunEvent::Waited(WaitOutcome::Ready)) == (RunStep {
                changed,
                command: RunCommand::NextEvent,
            })
            &&& polled.changed == changed
            &&& key == 0 ==> polled.command == RunCommand::Serve(EventSource::Stdin)
            &&& key > 0 ==> polled.command == RunCommand::Serve(
                EventSource::Pty((key - 1) as usize),
            )
            &&& action is Exit <==> served.command is Stop
            &&& action !is Exit <==> served.command is NextEvent
            &&& action is Redraw ==> served.changed
            &&& action is Continue ==> served.changed == changed
        }),
{
}

/// Of all that happens in the loop itself, only a resize changes the multiplexer.
pub proof fn law_only_a_resize_changes_the_state<H>(
    state: MuxState<H>,
    event: RunEvent,
    host: TerminalSize,
)
    ensures
        !(event matches RunEvent::ResizeChecked(found) && found is Some) ==> state.after_run(event)
            == state,
        host.ws_row > 1 ==> state.after_run(RunEvent::ResizeChecked(Some(host))) == state.resized(
            (host.ws_row - 1) as u16,
            host.ws_col,
        ),
        host.ws_row <= 1 ==> state.after_run(RunEvent::ResizeChecked(Some(host))) == state.resized(
            host.ws_row,
            host.ws_col,
        ),
{
}

/// How far the loop has come.
pub enum LoopState {
    /// It goes on; there is something new to draw or not.
    Running { changed: bool },
    /// It was left, without an error.
    Stopped,
    /// It was left with an error.
    Failed,
}

/// How far the loop has come after `events`, each of which came in the state beside it. Once it
/// was left, no further event is handled.
pub open spec fn loop_after<H>(states: Seq<MuxState<H>>, events: Seq<RunEvent>) -> LoopState
    decreases events.len(),
{
    if events.len() == 0 {
        LoopState::Running { changed: false }
    } else {
        match loop_after(states.drop_last(), events.drop_last()) {
            LoopState::Running { changed } => {
                let step = states.last().run_step(changed, events.last());
                match step.command {
                    RunCommand::Stop => LoopState::Stopped,
                    RunCommand::Fail => LoopState::Failed,
                    _ => LoopState::Running { changed: step.changed },
                }
            },
            ended => ended,
        }
    }
}

/// The event is an error: a wait that failed other than by an interruption, or anything else
/// that was asked for and failed.
pub open spec fn is_error(event: RunEvent) -> bool {
    event is Failed || event == RunEvent::Waited(WaitOutcome::Failed)
}

/// The event is an action that says to leave the loop.
pub open spec fn is_exit(event: RunEvent) -> bool {
    event == RunEvent::Served(LoopAction::Exit)
}

/// The event at `k` is the first one that is an error or says to leave.
pub open spec fn first_end(events: Seq<RunEvent>, k: int) -> bool {
    &&& 0 <= k < events.len()
    &&& is_error(events[k]) || is_exit(events[k])
    &&& forall|j: int| 0 <= j < k ==> !is_error(#[trigger] events[j]) && !is_exit(events[j])
}

/// The loop ends with the first event that is an error or says to leave, whatever comes after
/// it: with an error if and only if that event is one. Registering, drawing, handling and waiting
/// can all bring the error; only an interrupted wait cannot. Without such an event
/// the loop goes on.
pub proof fn law_errors_end_the_loop<H>(states: Seq<MuxState<H>>, events: Seq<RunEvent>)
    requires
        states.len() == events.len(),
    ensures
        loop_after(states, events) is Failed <==> exists|k: int| #[trigger]
            first_end(events, k) && is_error(events[k]),
        loop_after(states, events) is Stopped <==> exists|k: int| #[trigger]
            first_end(events, k) && is_exit(events[k]),
    decreases events.len(),
{
    if events.len() > 0 {
        let before = events.drop_last();
        let last = events.len() - 1;
        law_errors_end_the_loop(states.drop_last(), before);
        assert forall|k: int| 0 <= k < last implies first_end(before, k) == first_end(
            events,
            k,
        ) by {
            assert forall|j: int| 0 <= j <= k implies before[j] == events[j] by {}
        }
        if loop_after(states.drop_last(), before) is Running {
            lemma_running(states.drop_last(), before);
            assert forall|j: int| 0 <= j < last implies !is_error(#[trigger] events[j])
                && !is_exit(events[j]) by {
                assert(before[j] == events[j]);
            }
            assert(first_end(events, last) == (is_error(events[last]) || is_exit(events[last])));
            assert forall|k: int| first_end(events, k) implies k == last by {}
        } else {
            let k = choose|k: int| #[trigger] first_end(before, k);
            assert(first_end(events, k));
            assert forall|m: int| first_end(events, m) implies m == k by {
                if m < k {
                    assert(!is_error(events[m]) && !is_exit(events[m]));
                }
                if k < m {
                    assert(!is_error(events[k]) && !is_exit(events[k]));
                }
            }
        }
    }
}

/// While the loop goes on, no event was an error or said to leave.
proof fn lemma_running<H>(states: Seq<MuxState<H>>, events: Seq<RunEvent>)
    requires
        states.len() == events.len(),
        loop_after(states, events) is Running,
    ensures
        forall|j: int| 0 <= j < events.len() ==> !is_error(#[trigger] events[j]) && !is_exit(
            events[j],
        ),
    decreases events.len(),
{
    if events.len() > 0 {
        let before = events.drop_last();
        lemma_running(states.drop_last(), before);
        assert forall|j: int| 0 <= j < events.len() implies !is_error(#[trigger] events[j])
            && !is_exit(events[j]) by {
            if j < before.len() {
                assert(before[j] == events[j]);
            }
        }
    }
}

/// A wait that was interrupted ends nothing, draws nothing and handles no event: the loop starts
/// over, with nothing new to draw.
pub proof fn law_interrupted_wait_starts_over<H>(state: MuxState<H>, changed: bool)
    ensures
        state.run_step(changed, RunEvent::Waited(WaitOutcome::Interrupted)) == (RunStep {
            changed: false,
            command: RunCommand::CheckResize,
        }),
{
}

} // verus!
