//! What is typed: bytes for the program of the window that is shown, and commands.
use vstd::prelude::*;

use crate::mux::{
    KeyEffect, LoopAction, MuxApp, MuxState, PtyWrite, NEW_WINDOW_KEY, NEXT_WINDOW_KEY, PREFIX_KEY,
    PREVIOUS_WINDOW_KEY,
};
use crate::size::TerminalSize;

verus! {

/// What is to be done about a read of standard input.
#[derive(Debug, PartialEq, Eq)]
pub enum StdinStep {
    /// The input has ended: leave the event loop.
    Exit,
    /// Do the writes, open a window, and go on with the key at `next`.
    Spawn { writes: Vec<PtyWrite>, next: usize, action: LoopAction },
    /// Do the writes, have standard input watched again, and report `action`.
    Done { writes: Vec<PtyWrite>, action: LoopAction },
}

impl<H> MuxState<H> {
    /// `step` is right for the keys from `from` on, in this state, where `action` was reached by
    /// the keys before them and `after` is the state that the step leaves.
    pub open spec fn stdin_step(
        self,
        keys: Seq<u8>,
        from: int,
        action: LoopAction,
        step: StdinStep,
        after: Self,
    ) -> bool {
        match step {
            StdinStep::Exit => keys.len() == 0 && after == self,
            StdinStep::Spawn { writes, next, action: reached } => {
                let taken = keys.subrange(from, next as int);
                &&& from < next <= keys.len()
                &&& self.no_spawn_before(taken, taken.len() - 1)
                &&& self.spawns_at(taken, taken.len() - 1)
                &&& self.keys_done(taken, action, writes@, reached, after)
            },
            StdinStep::Done { writes, action: reached } => {
                let taken = keys.subrange(from, keys.len() as int);
                &&& keys.len() > 0
                &&& self.no_spawn_before(taken, taken.len() as int)
                &&& self.keys_done(taken, action, writes@, reached, after)
            },
        }
    }

    /// `step` is right for a read that gave these keys, from the key at `from` on, or for one that
    /// failed.
    pub open spec fn read_step(
        self,
        read: Option<Seq<u8>>,
        from: int,
        action: LoopAction,
        step: StdinStep,
        after: Self,
    ) -> bool {
        match read {
            Some(keys) => {
                &&& self.stdin_step(keys, from, action, step, after)
                &&& step is Exit <==> keys.len() == 0
            },
            None => {
                &&& after == self
                &&& step matches StdinStep::Done { writes, action: reached } && writes@.len() == 0
                    && reached == action
            },
        }
    }

    /// None of the first `n` keys opens a window.
    pub open spec fn no_spawn_before(self, keys: Seq<u8>, n: int) -> bool {
        forall|k: int| 0 <= k < n ==> !self.spawns_at(keys, k)
    }

    /// These are the writes, the action and the state that come of `taken`.
    pub open spec fn keys_done(
        self,
        taken: Seq<u8>,
        action: LoopAction,
        writes: Seq<PtyWrite>,
        reached: LoopAction,
        after: Self,
    ) -> bool {
        &&& writes == self.key_writes(taken)
        &&& reached == if self.keys_redraw(taken) {
            LoopAction::Redraw
        } else {
            action
        }
        &&& after == self.after_keys(taken)
    }
}

impl<H> MuxApp<H> {
    /// Takes one key.
    pub fn handle_key(&mut self, key: u8) -> (effect: KeyEffect)
        requires
            old(self).inv(),
        ensures
            final(self).inv(),
            final(self)@ == old(self)@.after_key(key),
            effect == old(self)@.key_effect(key),
    {
        let shown: usize = self.current_window_idx;
        let count: usize = self.windows.len();
        if self.prefix_mode {
            self.prefix_mode = false;
            if key == NEW_WINDOW_KEY {
                KeyEffect::Spawn
            } else if key == NEXT_WINDOW_KEY {
                self.current_window_idx = (shown + 1) % count;
                KeyEffect::Done
            } else if key == PREVIOUS_WINDOW_KEY {
                self.current_window_idx = if shown == 0 {
                    count - 1
                } else {
                    shown - 1
                };
                proof {
                    lemma_indices(old(self)@);
                }
                KeyEffect::Done
            } else if key == PREFIX_KEY {
                KeyEffect::Forward(PtyWrite { window: shown, byte: key })
            } else {
                KeyEffect::Done
            }
        } else if key == PREFIX_KEY {
            self.prefix_mode = true;
            KeyEffect::Done
        } else {
            KeyEffect::Forward(PtyWrite { window: shown, byte: key })
        }
    }

    /// Handles a read of standard input, from the key at `from` on. `read` is `None` where the
    /// read failed, which changes nothing, and `action` is what the keys before `from` have led
    /// to: `Continue` at first.
    pub fn handle_stdin(&mut self, read: Option<&[u8]>, from: usize, action: LoopAction) -> (step:
        StdinStep)
        requires
            old(self).inv(),
            read matches Some(keys) ==> from <= keys@.len(),
        ensures
            final(self).inv(),
            old(self)@.read_step(
                match read {
                    Some(keys) => Some(keys@),
                    None => None,
                },
                from as int,
                action,
                step,
                final(self)@,
            ),
    {
        let keys: &[u8] = match read {
            None => {
                return StdinStep::Done { writes: Vec::new(), action };
            },
            Some(keys) => keys,
        };
        if keys.len() == 0 {
            return StdinStep::Exit;
        }
        let mut writes: Vec<PtyWrite> = Vec::new();
        let mut reached: LoopAction = action;
        let mut next: usize = from;
        assert(keys@.subrange(from as int, from as int) =~= Seq::<u8>::empty());
        while next < keys.len()
            invariant
                self.inv(),
                read == Some(keys),
                from <= next <= keys@.len(),
                keys@.len() > 0,
                old(self)@.no_spawn_before(keys@.subrange(from as int, next as int), next - from),
                old(self)@.keys_done(
                    keys@.subrange(from as int, next as int),
                    action,
                    writes@,
                    reached,
                    self@,
                ),
                old(self)@.prefix_mode || self@.prefix_mode ==> next == from || reached is Redraw,
            decreases keys@.len() - next,
        {
            let key: u8 = keys[next];
            let ghost before = keys@.subrange(from as int, next as int);
            let ghost taken = keys@.subrange(from as int, next + 1);
            if self.prefix_mode || key == PREFIX_KEY {
                reached = LoopAction::Redraw;
            }
            let effect = self.handle_key(key);
            proof {
                assert(taken.drop_last() =~= before);
                assert(taken.last() == key);
                assert forall|k: int| 0 <= k < before.len() implies !old(self)@.spawns_at(
                    taken,
                    k,
                ) by {
                    assert(!old(self)@.spawns_at(before, k));
                    assert(taken.take(k) =~= before.take(k));
                }
                assert(taken.take(taken.len() - 1) =~= before);
                if before.contains(PREFIX_KEY) {
                    let k = choose|k: int| 0 <= k < before.len() && before[k] == PREFIX_KEY;
                    assert(taken[k] == PREFIX_KEY);
                }
                if key == PREFIX_KEY {
                    assert(taken[before.len() as int] == PREFIX_KEY);
                }
            }
            next += 1;
            match effect {
                KeyEffect::Spawn => {
                    assert(old(self)@.spawns_at(taken, taken.len() - 1));
                    return StdinStep::Spawn { writes, next, action: reached };
                },
                KeyEffect::Forward(write) => {
                    writes.push(write);
                },
                KeyEffect::Done => {},
            }
        }
        StdinStep::Done { writes, action: reached }
    }
}

/// What keys come to when every window that they ask for is opened at once.
#[verifier::ext_equal]
pub struct Typed<H> {
    /// The state that they leave.
    pub state: MuxState<H>,
    /// The bytes that they send to windows, in order.
    pub writes: Seq<PtyWrite>,
    /// How many windows they open.
    pub opened: nat,
}

impl<H> MuxState<H> {
    /// What `keys` come to, where the windows that they open have the handles and the host sizes
    /// in `fresh`, one after another.
    pub open spec fn typed(self, keys: Seq<u8>, fresh: Seq<(H, TerminalSize)>) -> Typed<H>
        decreases keys.len(),
    {
        if keys.len() == 0 {
            Typed { state: self, writes: Seq::empty(), opened: 0 }
        } else {
            let before = self.typed(keys.drop_last(), fresh);
            let after = before.state.after_key(keys.last());
            match before.state.key_effect(keys.last()) {
                KeyEffect::Spawn => {
                    let (master, host) = fresh[before.opened as int];
                    Typed {
                        state: after.spawned(master, host),
                        opened: before.opened + 1,
                        ..before
                    }
                },
                KeyEffect::Forward(write) => Typed {
                    state: after,
                    writes: before.writes.push(write),
                    ..before
                },
                KeyEffect::Done => Typed { state: after, ..before },
            }
        }
    }
}

/// What one key does, in every state. While no command is being typed, the prefix key begins one,
/// and every other key goes to the window that is shown and changes nothing. Otherwise the key is
/// the command, and ends it: it opens a window, shows the next or the previous one, counted round
/// the ends, or is the prefix key and goes to the window that is shown; any other does nothing.
/// No key closes or changes a window.
pub proof fn law_what_a_key_does<H>(state: MuxState<H>, key: u8)
    ensures
        ({
            let n = state.windows.len() as int;
            let after = state.after_key(key);
            let effect = state.key_effect(key);
            let sent = KeyEffect::Forward(PtyWrite { window: state.current as usize, byte: key });
            let command = state.prefix_mode;
            &&& after.windows == state.windows
            &&& after.prefix_mode <==> !command && key == PREFIX_KEY
            &&& effect is Spawn <==> command && key == NEW_WINDOW_KEY
            &&& effect is Forward <==> (command <==> key == PREFIX_KEY)
            &&& effect is Forward ==> effect == sent
            &&& !(command && (key == NEXT_WINDOW_KEY || key == PREVIOUS_WINDOW_KEY))
                ==> after.current == state.current
            &&& command && key == NEXT_WINDOW_KEY && 0 <= state.current < n - 1 ==> after.current
                == state.current + 1
            &&& command && key == NEXT_WINDOW_KEY && 0 <= state.current == n - 1 ==> after.current
                == 0
            &&& command && key == PREVIOUS_WINDOW_KEY && 0 < state.current < n ==> after.current
                == state.current - 1
            &&& command && key == PREVIOUS_WINDOW_KEY && 0 == state.current < n ==> after.current
                == n - 1
            &&& state.keys_redraw(seq![key]) <==> command || key == PREFIX_KEY
            &&& !state.keys_redraw(Seq::empty())
        }),
{
    if 0 <= state.current < state.windows.len() {
        lemma_indices(state);
    }
    assert(seq![key][0] == key);
}

/// A single key, with the window that it opens opened, if it opens one: it sends at most one byte,
/// which is itself and goes to the window that is shown, and opens at most one window, which is
/// then the last one and is shown. No keys do nothing.
pub proof fn law_one_key_typed<H>(state: MuxState<H>, key: u8, fresh: Seq<(H, TerminalSize)>)
    ensures
        ({
            let typed = state.typed(seq![key], fresh);
            let sends = state.prefix_mode <==> key == PREFIX_KEY;
            let opens = state.prefix_mode && key == NEW_WINDOW_KEY;
            &&& state.typed(Seq::empty(), fresh) == (Typed {
                state,
                writes: Seq::empty(),
                opened: 0,
            })
            &&& sends ==> typed.writes == seq![
                PtyWrite { window: state.current as usize, byte: key },
            ]
            &&& !sends ==> typed.writes == Seq::<PtyWrite>::empty()
            &&& opens ==> typed.opened == 1 && typed.state == state.after_key(key).spawned(
                fresh[0].0,
                fresh[0].1,
            )
            &&& !opens ==> typed.opened == 0 && typed.state == state.after_key(key)
        }),
{
    assert(seq![key].drop_last() =~= Seq::<u8>::empty());
    reveal_with_fuel(MuxState::typed, 2);
}

/// However many windows there are, the command for a new window opens exactly one: it is the last
/// one, and it is shown. No byte is sent, and no command is being typed afterwards.
pub proof fn law_new_window_command_opens_one<H>(
    state: MuxState<H>,
    fresh: Seq<(H, TerminalSize)>,
)
    requires
        !state.prefix_mode,
        fresh.len() > 0,
    ensures
        ({
            let keys = seq![PREFIX_KEY, NEW_WINDOW_KEY];
            let typed = state.typed(keys, fresh);
            &&& !state.spawns_at(keys, 0)
            &&& state.spawns_at(keys, 1)
            &&& typed.opened == 1
            &&& typed.writes == Seq::<PtyWrite>::empty()
            &&& typed.state == state.spawned(fresh[0].0, fresh[0].1)
            &&& typed.state.windows.len() == state.windows.len() + 1
            &&& typed.state.current == state.windows.len()
            &&& !typed.state.prefix_mode
        }),
{
    let keys = seq![PREFIX_KEY, NEW_WINDOW_KEY];
    assert(keys.take(0) =~= Seq::<u8>::empty());
    assert(keys.take(1) =~= seq![PREFIX_KEY]);
    assert(keys.drop_last() =~= seq![PREFIX_KEY]);
    assert(seq![PREFIX_KEY].drop_last() =~= Seq::<u8>::empty());
    reveal_with_fuel(MuxState::after_keys, 3);
    reveal_with_fuel(MuxState::typed, 3);
}

/// Keys do the same whether they are read at once or in two pieces, with the windows that they
/// open opened in between: they leave the same state, send the same bytes in the same order to
/// the same windows, open the same windows, and ask for a redraw if one of the pieces does.
pub proof fn law_keys_in_pieces<H>(
    state: MuxState<H>,
    first: Seq<u8>,
    second: Seq<u8>,
    fresh: Seq<(H, TerminalSize)>,
)
    requires
        state.typed(first + second, fresh).opened <= fresh.len(),
    ensures
        ({
            let whole = state.typed(first + second, fresh);
            let one = state.typed(first, fresh);
            let two = one.state.typed(second, fresh.skip(one.opened as int));
            &&& whole.state == two.state
            &&& whole.writes == one.writes + two.writes
            &&& whole.opened == one.opened + two.opened
            &&& state.keys_redraw(first + second) == (state.keys_redraw(first)
                || one.state.keys_redraw(second))
        }),
    decreases second.len(),
{
    let one = state.typed(first, fresh);
    let rest = fresh.skip(one.opened as int);
    if second.len() == 0 {
        assert(first + second =~= first);
        assert(one.writes + Seq::<PtyWrite>::empty() =~= one.writes);
    } else {
        let fewer = second.drop_last();
        assert((first + second).drop_last() =~= first + fewer);
        assert((first + second).last() == second.last());
        law_keys_in_pieces(state, first, fewer, fresh);
        let two = one.state.typed(second, rest);
        assert(state.typed(first + second, fresh).writes =~= one.writes + two.writes);
    }
    lemma_prefix_after(state, first, fresh);
    assert forall|key: u8| (first + second).contains(key) <==> first.contains(key)
        || second.contains(key) by {
        lemma_contains_either(first, second, key);
    }
}

/// What a joined sequence holds.
proof fn lemma_contains_either(first: Seq<u8>, second: Seq<u8>, key: u8)
    ensures
        (first + second).contains(key) <==> first.contains(key) || second.contains(key),
{
    let both = first + second;
    if first.contains(key) {
        let k = choose|k: int| 0 <= k < first.len() && first[k] == key;
        assert(both[k] == key);
    }
    if second.contains(key) {
        let k = choose|k: int| 0 <= k < second.len() && second[k] == key;
        assert(both[first.len() + k] == key);
    }
    if both.contains(key) {
        let k = choose|k: int| 0 <= k < both.len() && both[k] == key;
        if k < first.len() {
            assert(first[k] == key);
        } else {
            assert(second[k - first.len()] == key);
        }
    }
}

/// A command is being typed after some keys only if one of them is the prefix key, or there are
/// none and it was before.
proof fn lemma_prefix_after<H>(state: MuxState<H>, keys: Seq<u8>, fresh: Seq<(H, TerminalSize)>)
    ensures
        state.typed(keys, fresh).state.prefix_mode ==> keys.contains(PREFIX_KEY) || (keys.len()
            == 0 && state.prefix_mode),
{
    if keys.len() > 0 && state.typed(keys, fresh).state.prefix_mode {
        assert(keys[keys.len() - 1] == PREFIX_KEY);
    }
}

/// The steps for a read make up what its keys come to. A step that opens a window stands for the
/// keys up to the one that opens it, once the window is there; the last step stands for the keys
/// that are left. So, step by step, a read comes to what its keys come to at once. A redraw is
/// asked for once a key was part of a command, and from then on. Only a read of nothing ends the
/// loop.
pub proof fn law_steps_make_up_a_read<H>(
    state: MuxState<H>,
    keys: Seq<u8>,
    from: int,
    action: LoopAction,
    step: StdinStep,
    after: MuxState<H>,
    fresh: Seq<(H, TerminalSize)>,
)
    requires
        0 <= from <= keys.len(),
        state.stdin_step(keys, from, action, step, after),
    ensures
        match step {
            StdinStep::Exit => keys.len() == 0 && after == state,
            StdinStep::Spawn { writes, next, action: reached } => {
                let taken = keys.subrange(from, next as int);
                let typed = state.typed(taken, fresh);
                &&& from < next <= keys.len()
                &&& keys[next - 1] == NEW_WINDOW_KEY
                &&& typed.state == after.spawned(fresh[0].0, fresh[0].1)
                &&& typed.writes == writes@
                &&& typed.opened == 1
                &&& reached is Redraw
            },
            StdinStep::Done { writes, action: reached } => {
                let taken = keys.subrange(from, keys.len() as int);
                let typed = state.typed(taken, fresh);
                &&& keys.len() > 0
                &&& typed.state == after
                &&& typed.writes == writes@
                &&& typed.opened == 0
                &&& reached == if taken.len() > 0 && (state.prefix_mode || taken.contains(
                    PREFIX_KEY,
                )) {
                    LoopAction::Redraw
                } else {
                    action
                }
            },
        },
{
    match step {
        StdinStep::Exit => {},
        StdinStep::Spawn { next, .. } => {
            let taken = keys.subrange(from, next as int);
            let before = taken.drop_last();
            assert(taken.take(taken.len() - 1) =~= before);
            assert forall|k: int| 0 <= k < before.len() implies !state.spawns_at(before, k) by {
                assert(!state.spawns_at(taken, k));
                assert(before.take(k) =~= taken.take(k));
            }
            lemma_typed_without_spawn(state, before, fresh);
            lemma_prefix_after(state, before, fresh);
            if before.contains(PREFIX_KEY) {
                let k = choose|k: int| 0 <= k < before.len() && before[k] == PREFIX_KEY;
                assert(taken[k] == PREFIX_KEY);
            }
        },
        StdinStep::Done { .. } => {
            lemma_typed_without_spawn(state, keys.subrange(from, keys.len() as int), fresh);
        },
    }
}

/// The end of the input ends the loop, and nothing else that is read does. A read that failed
/// does not either: it changes nothing, sends nothing and opens nothing, and standard input is
/// watched again.
pub proof fn law_only_the_end_of_input_exits<H>(
    state: MuxState<H>,
    read: Option<Seq<u8>>,
    from: int,
    action: LoopAction,
    step: StdinStep,
    after: MuxState<H>,
)
    requires
        state.read_step(read, from, action, step, after),
    ensures
        step is Exit <==> (read matches Some(keys) && keys.len() == 0),
        step is Exit ==> after == state,
        read is None ==> after == state && (step matches StdinStep::Done {
            writes,
            action: reached,
        } && writes@ == Seq::<PtyWrite>::empty() && reached == action),
        read matches Some(keys) ==> state.stdin_step(keys, from, action, step, after),
{
}

/// What keys come to that open no window.
proof fn lemma_typed_without_spawn<H>(
    state: MuxState<H>,
    keys: Seq<u8>,
    fresh: Seq<(H, TerminalSize)>,
)
    requires
        state.no_spawn_before(keys, keys.len() as int),
    ensures
        state.typed(keys, fresh) == (Typed {
            state: state.after_keys(keys),
            writes: state.key_writes(keys),
            opened: 0,
        }),
    decreases keys.len(),
{
    if keys.len() > 0 {
        let before = keys.drop_last();
        assert(keys.take(keys.len() - 1) =~= before);
        assert(!state.spawns_at(keys, keys.len() - 1));
        assert forall|k: int| 0 <= k < before.len() implies !state.spawns_at(before, k) by {
            assert(!state.spawns_at(keys, k));
            assert(before.take(k) =~= keys.take(k));
        }
        lemma_typed_without_spawn(state, before, fresh);
    }
}

/// The state after keys that open no window, in two pieces.
proof fn lemma_after_keys_in_pieces<H>(state: MuxState<H>, first: Seq<u8>, second: Seq<u8>)
    ensures
        state.after_keys(first + second) == state.after_keys(first).after_keys(second),
    decreases second.len(),
{
    if second.len() == 0 {
        assert(first + second =~= first);
    } else {
        lemma_after_keys_in_pieces(state, first, second.drop_last());
        assert((first + second).drop_last() =~= first + second.drop_last());
    }
}

/// Keys alone change no window, and there is still one to show.
pub proof fn law_keys_keep_windows<H>(state: MuxState<H>, keys: Seq<u8>)
    requires
        state.live(),
    ensures
        state.after_keys(keys).windows == state.windows,
        state.after_keys(keys).live(),
    decreases keys.len(),
{
    if keys.len() > 0 {
        law_keys_keep_windows(state, keys.drop_last());
        let before = state.after_keys(keys.drop_last());
        let n = before.windows.len() as int;
        vstd::arithmetic::div_mod::lemma_mod_bound(before.current + 1, n);
        vstd::arithmetic::div_mod::lemma_mod_bound(before.current + n - 1, n);
    }
}

/// Every byte that keys send goes to a window that is there, before any window that they open.
pub proof fn law_writes_reach_windows<H>(state: MuxState<H>, keys: Seq<u8>, k: int)
    requires
        state.live(),
        state.windows.len() <= usize::MAX,
        0 <= k < state.key_writes(keys).len(),
    ensures
        state.key_writes(keys)[k].window < state.windows.len(),
    decreases keys.len(),
{
    let earlier = state.key_writes(keys.drop_last());
    law_keys_keep_windows(state, keys.drop_last());
    if k < earlier.len() {
        law_writes_reach_windows(state, keys.drop_last(), k);
    }
}

/// A read closes no window and changes none: it adds the windows that its keys open behind those
/// that there are. There is still one to show, and every byte goes to a window that is there.
pub proof fn law_reads_only_add_windows<H>(
    state: MuxState<H>,
    keys: Seq<u8>,
    fresh: Seq<(H, TerminalSize)>,
)
    requires
        state.live(),
        state.typed(keys, fresh).state.windows.len() <= usize::MAX,
    ensures
        ({
            let typed = state.typed(keys, fresh);
            &&& typed.state.live()
            &&& typed.state.windows.len() == state.windows.len() + typed.opened
            &&& state.windows.is_prefix_of(typed.state.windows)
            &&& forall|k: int|
                0 <= k < typed.writes.len() ==> (#[trigger] typed.writes[k]).window
                    < typed.state.windows.len()
        }),
    decreases keys.len(),
{
    if keys.len() > 0 {
        let before = state.typed(keys.drop_last(), fresh);
        law_reads_only_add_windows(state, keys.drop_last(), fresh);
        let n = before.state.windows.len() as int;
        vstd::arithmetic::div_mod::lemma_mod_bound(before.state.current + 1, n);
        vstd::arithmetic::div_mod::lemma_mod_bound(before.state.current + n - 1, n);
    }
}

/// While no command is being typed, keys other than the prefix key all go to the window that is
/// shown, as they are and in order, and change nothing.
pub proof fn law_plain_keys_pass_through<H>(state: MuxState<H>, keys: Seq<u8>)
    requires
        !state.prefix_mode,
        !keys.contains(PREFIX_KEY),
    ensures
        state.after_keys(keys) == state,
        state.key_writes(keys) == keys.map_values(
            |key: u8| PtyWrite { window: state.current as usize, byte: key },
        ),
        forall|k: int| 0 <= k < keys.len() ==> !state.spawns_at(keys, k),
    decreases keys.len(),
{
    let sent = |key: u8| PtyWrite { window: state.current as usize, byte: key };
    if keys.len() > 0 {
        let before = keys.drop_last();
        assert forall|k: int| 0 <= k < before.len() implies before[k] != PREFIX_KEY by {
            assert(keys[k] != PREFIX_KEY);
        }
        law_plain_keys_pass_through(state, before);
        assert(keys[keys.len() - 1] != PREFIX_KEY);
        assert(keys.map_values(sent) =~= before.map_values(sent).push(sent(keys.last())));
        assert forall|k: int| 0 <= k < keys.len() implies !state.spawns_at(keys, k) by {
            if k < before.len() {
                assert(!state.spawns_at(before, k));
                assert(keys.take(k) =~= before.take(k));
            } else {
                assert(keys.take(k) =~= before);
            }
        }
    } else {
        assert(keys.map_values(sent) =~= Seq::<PtyWrite>::empty());
    }
}

/// The effect of the prefix key and one more key, while no command is being typed before.
proof fn lemma_command<H>(state: MuxState<H>, command: u8)
    requires
        !state.prefix_mode,
    ensures
        state.after_keys(seq![PREFIX_KEY, command]) == state.after_key(PREFIX_KEY).after_key(
            command,
        ),
        state.key_writes(seq![PREFIX_KEY, command]) == (if command == PREFIX_KEY {
            seq![PtyWrite { window: state.current as usize, byte: PREFIX_KEY }]
        } else {
            Seq::empty()
        }),
{
    let keys = seq![PREFIX_KEY, command];
    assert(keys.drop_last() =~= seq![PREFIX_KEY]);
    assert(seq![PREFIX_KEY].drop_last() =~= Seq::<u8>::empty());
    reveal_with_fuel(MuxState::after_keys, 3);
    reveal_with_fuel(MuxState::key_writes, 3);
    assert(state.after_keys(seq![PREFIX_KEY]) == state.after_key(PREFIX_KEY));
    assert(state.key_writes(seq![PREFIX_KEY]) =~= Seq::<PtyWrite>::empty());
    assert(state.key_writes(keys) =~= (if command == PREFIX_KEY {
        seq![PtyWrite { window: state.current as usize, byte: PREFIX_KEY }]
    } else {
        Seq::empty()
    }));
}

/// The prefix key typed twice sends it once to the window that is shown, and changes nothing.
pub proof fn law_doubled_prefix_sends_it<H>(state: MuxState<H>)
    requires
        !state.prefix_mode,
    ensures
        state.after_keys(seq![PREFIX_KEY, PREFIX_KEY]) == state,
        state.key_writes(seq![PREFIX_KEY, PREFIX_KEY]) == seq![
            PtyWrite { window: state.current as usize, byte: PREFIX_KEY },
        ],
{
    lemma_command(state, PREFIX_KEY);
}

/// A command that there is not does nothing: it is not sent to any window either.
pub proof fn law_unknown_command_does_nothing<H>(state: MuxState<H>, command: u8)
    requires
        !state.prefix_mode,
        command != PREFIX_KEY,
        command != NEW_WINDOW_KEY,
        command != NEXT_WINDOW_KEY,
        command != PREVIOUS_WINDOW_KEY,
    ensures
        state.after_keys(seq![PREFIX_KEY, command]) == state,
        state.key_writes(seq![PREFIX_KEY, command]) == Seq::<PtyWrite>::empty(),
        !state.spawns_at(seq![PREFIX_KEY, command], 1),
{
    lemma_command(state, command);
    let keys = seq![PREFIX_KEY, command];
    assert(keys.take(1) =~= seq![PREFIX_KEY]);
    assert(seq![PREFIX_KEY].drop_last() =~= Seq::<u8>::empty());
    reveal_with_fuel(MuxState::after_keys, 2);
}

/// The index that the command for the next window leads to.
pub open spec fn next_index(current: int, n: int) -> int {
    if current + 1 == n {
        0
    } else {
        current + 1
    }
}

/// The index that the command for the previous window leads to.
pub open spec fn previous_index(current: int, n: int) -> int {
    if current == 0 {
        n - 1
    } else {
        current - 1
    }
}

/// The commands for the next and the previous window lead to the index after and before the
/// current one, and round from one end to the other. Nothing else changes, and each of the two
/// undoes the other.
pub proof fn law_next_and_previous<H>(state: MuxState<H>)
    requires
        state.live(),
        !state.prefix_mode,
    ensures
        ({
            let n = state.windows.len() as int;
            let next = state.after_keys(seq![PREFIX_KEY, NEXT_WINDOW_KEY]);
            let previous = state.after_keys(seq![PREFIX_KEY, PREVIOUS_WINDOW_KEY]);
            &&& next == (MuxState { current: next_index(state.current, n), ..state })
            &&& previous == (MuxState { current: previous_index(state.current, n), ..state })
            &&& next.after_keys(seq![PREFIX_KEY, PREVIOUS_WINDOW_KEY]) == state
            &&& previous.after_keys(seq![PREFIX_KEY, NEXT_WINDOW_KEY]) == state
        }),
{
    let next = state.after_keys(seq![PREFIX_KEY, NEXT_WINDOW_KEY]);
    let previous = state.after_keys(seq![PREFIX_KEY, PREVIOUS_WINDOW_KEY]);
    lemma_command(state, NEXT_WINDOW_KEY);
    lemma_command(state, PREVIOUS_WINDOW_KEY);
    lemma_indices(state);
    lemma_command(next, PREVIOUS_WINDOW_KEY);
    lemma_indices(next);
    lemma_command(previous, NEXT_WINDOW_KEY);
    lemma_indices(previous);
}

/// The remainders in `after_key`, without division.
proof fn lemma_indices<H>(state: MuxState<H>)
    requires
        state.live(),
    ensures
        (state.current + 1) % (state.windows.len() as int) == next_index(
            state.current,
            state.windows.len() as int,
        ),
        (state.current + state.windows.len() - 1) % (state.windows.len() as int) == previous_index(
            state.current,
            state.windows.len() as int,
        ),
{
    let n = state.windows.len();
    let c = state.current;
    if c + 1 < n {
        vstd::arithmetic::div_mod::lemma_small_mod((c + 1) as nat, n);
    } else {
        vstd::arithmetic::div_mod::lemma_mod_self_0(n as int);
    }
    if c == 0 {
        vstd::arithmetic::div_mod::lemma_small_mod((n - 1) as nat, n);
    } else {
        vstd::arithmetic::div_mod::lemma_mod_add_multiples_vanish(c - 1, n as int);
        vstd::arithmetic::div_mod::lemma_small_mod((c - 1) as nat, n);
    }
}

/// The command for the next window, given `times` times.
pub open spec fn next_commands(times: nat) -> Seq<u8>
    decreases times,
{
    if times == 0 {
        Seq::empty()
    } else {
        next_commands((times - 1) as nat) + seq![PREFIX_KEY, NEXT_WINDOW_KEY]
    }
}

/// The command for the next window goes round: given `times` times, it leads so many windows
/// further, counted round the end. So it reaches every window, and given as many times as there
/// are windows it leads back.
pub proof fn law_next_goes_round<H>(state: MuxState<H>, times: nat)
    requires
        state.live(),
        !state.prefix_mode,
    ensures
        state.after_keys(next_commands(times)) == (MuxState {
            current: (state.current + times) % (state.windows.len() as int),
            ..state
        }),
    decreases times,
{
    let n = state.windows.len() as int;
    if times == 0 {
        vstd::arithmetic::div_mod::lemma_small_mod(state.current as nat, n as nat);
    } else {
        let fewer = (times - 1) as nat;
        law_next_goes_round(state, fewer);
        lemma_after_keys_in_pieces(
            state,
            next_commands(fewer),
            seq![PREFIX_KEY, NEXT_WINDOW_KEY],
        );
        let before = state.after_keys(next_commands(fewer));
        vstd::arithmetic::div_mod::lemma_mod_bound(state.current + fewer, n);
        lemma_command(before, NEXT_WINDOW_KEY);
        vstd::arithmetic::div_mod::lemma_add_mod_noop(state.current + fewer, 1, n);
        vstd::arithmetic::div_mod::lemma_add_mod_noop((state.current + fewer) % n, 1, n);
        vstd::arithmetic::div_mod::lemma_mod_twice(state.current + fewer, n);
    }
}

} // verus!
