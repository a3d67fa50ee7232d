//! Writing everything to a standard output that may take only part of it at a time.
use vstd::prelude::*;
use vstd::slice::slice_subrange;

verus! {

/// What was just done about some data that is to be written.
#[derive(Clone, Copy, Debug, PartialEq, Eq, Structural)]
pub enum WriteEvent {
    /// Nothing yet.
    Started,
    /// So many of its bytes were written.
    Wrote(usize),
    /// The output would have blocked; nothing was written.
    WouldBlock,
    /// The write was interrupted; nothing was written.
    Interrupted,
    /// The write failed in another way.
    Failed,
}

/// What is to be done next about some data that is to be written.
#[derive(Clone, Copy, Debug, PartialEq, Eq)]
pub enum WriteStep<'a> {
    /// Nothing: all of it was written.
    Finished,
    /// To write this rest of it.
    Write(&'a [u8]),
    /// To let other threads run, and then to write this rest of it.
    YieldThenWrite(&'a [u8]),
    /// To give up, because nothing more is taken.
    WriteZero,
    /// To give up with the error of the write.
    Fail,
}

/// What became of a flush.
#[derive(Clone, Copy, Debug, PartialEq, Eq, Structural)]
pub enum FlushEvent {
    Flushed,
    WouldBlock,
    Interrupted,
    Failed,
}

/// What is to be done next about a flush.
#[derive(Clone, Copy, Debug, PartialEq, Eq, Structural)]
pub enum FlushStep {
    /// Nothing.
    Finished,
    /// To flush again.
    Flush,
    /// To let other threads run, and then to flush again.
    YieldThenFlush,
    /// To give up with the error of the flush.
    Fail,
}

/// `step` goes on with `rest`: to write it, or to finish where it is empty.
pub open spec fn goes_on_with(step: WriteStep, rest: Seq<u8>) -> bool {
    if rest.len() == 0 {
        step is Finished
    } else {
        step matches WriteStep::Write(left) && left@ == rest
    }
}

/// An event that can happen to `data`: no more is written than there is, and nothing is written
/// where there is nothing.
pub open spec fn possible(data: Seq<u8>, event: WriteEvent) -> bool {
    match event {
        WriteEvent::Started => true,
        WriteEvent::Wrote(n) => data.len() > 0 && n <= data.len(),
        _ => data.len() > 0,
    }
}

/// `step` is right for `data`, all of which was still to be written, after `event`.
pub open spec fn write_step(data: Seq<u8>, event: WriteEvent, step: WriteStep) -> bool {
    match event {
        WriteEvent::Started => goes_on_with(step, data),
        WriteEvent::Wrote(n) => if n == 0 {
            step is WriteZero
        } else {
            goes_on_with(step, data.skip(n as int))
        },
        WriteEvent::WouldBlock => step matches WriteStep::YieldThenWrite(left) && left@ == data,
        WriteEvent::Interrupted => goes_on_with(step, data),
        WriteEvent::Failed => step is Fail,
    }
}

/// What comes next after a flush.
pub open spec fn flush_step(event: FlushEvent) -> FlushStep {
    match event {
        FlushEvent::Flushed => FlushStep::Finished,
        FlushEvent::WouldBlock => FlushStep::YieldThenFlush,
        FlushEvent::Interrupted => FlushStep::Flush,
        FlushEvent::Failed => FlushStep::Fail,
    }
}

/// What comes next about `data`, all of which is still to be written, after `event`.
pub fn write_stdout_blocking<'a>(data: &'a [u8], event: WriteEvent) -> (step: WriteStep<'a>)
    requires
        possible(data@, event),
    ensures
        write_step(data@, event, step),
{
    let rest: &'a [u8] = match event {
        WriteEvent::Started => data,
        WriteEvent::Wrote(n) => {
            if n == 0 {
                return WriteStep::WriteZero;
            }
            slice_subrange(data, n, data.len())
        },
        WriteEvent::WouldBlock => {
            return WriteStep::YieldThenWrite(data);
        },
        WriteEvent::Interrupted => data,
        WriteEvent::Failed => {
            return WriteStep::Fail;
        },
    };
    if rest.len() == 0 {
        WriteStep::Finished
    } else {
        WriteStep::Write(rest)
    }
}

/// What comes next after a flush.
pub fn flush_stdout_blocking(event: FlushEvent) -> (step: FlushStep)
    ensures
        step == flush_step(event),
{
    match event {
        FlushEvent::Flushed => FlushStep::Finished,
        FlushEvent::WouldBlock => FlushStep::YieldThenFlush,
        FlushEvent::Interrupted => FlushStep::Flush,
        FlushEvent::Failed => FlushStep::Fail,
    }
}

/// What is still to be written of `data` after `events`, each of which was about what the ones
/// before it had left.
pub open spec fn unwritten(data: Seq<u8>, events: Seq<WriteEvent>) -> Seq<u8>
    decreases events.len(),
{
    if events.len() == 0 {
        data
    } else {
        let left = unwritten(data, events.drop_last());
        match events.last() {
            WriteEvent::Wrote(n) => left.skip(n as int),
            _ => left,
        }
    }
}

/// What the output has taken of `data` in the course of `events`.
pub open spec fn taken(data: Seq<u8>, events: Seq<WriteEvent>) -> Seq<u8>
    decreases events.len(),
{
    if events.len() == 0 {
        Seq::empty()
    } else {
        let before = taken(data, events.drop_last());
        match events.last() {
            WriteEvent::Wrote(n) => before + unwritten(data, events.drop_last()).take(n as int),
            _ => before,
        }
    }
}

/// Each of `events` can happen to what the ones before it have left of `data`.
pub open spec fn possible_run(data: Seq<u8>, events: Seq<WriteEvent>) -> bool
    decreases events.len(),
{
    events.len() > 0 ==> {
        &&& possible_run(data, events.drop_last())
        &&& possible(unwritten(data, events.drop_last()), events.last())
    }
}

/// However the output splits the data, what it has taken and what is still to be written make up
/// the data: no byte is lost, written twice or out of order. In particular, once nothing is left
/// to write, the output has taken exactly the data.
pub proof fn law_every_byte_once(data: Seq<u8>, events: Seq<WriteEvent>)
    requires
        possible_run(data, events),
    ensures
        taken(data, events) + unwritten(data, events) == data,
        unwritten(data, events).len() == 0 ==> taken(data, events) == data,
    decreases events.len(),
{
    if events.len() == 0 {
        assert(taken(data, events) + unwritten(data, events) =~= data);
    } else {
        let before = events.drop_last();
        law_every_byte_once(data, before);
        let left = unwritten(data, before);
        if let WriteEvent::Wrote(n) = events.last() {
            assert(left.take(n as int) + left.skip(n as int) =~= left);
            assert(taken(data, events) + unwritten(data, events) =~= taken(data, before) + left);
        }
    }
    if unwritten(data, events).len() == 0 {
        assert(taken(data, events) + unwritten(data, events) =~= taken(data, events));
    }
}

/// What a step leaves to be written: nothing, where it writes no more.
pub open spec fn left_by(step: WriteStep) -> Seq<u8> {
    match step {
        WriteStep::Write(left) => left@,
        WriteStep::YieldThenWrite(left) => left@,
        _ => Seq::empty(),
    }
}

/// A write that took some bytes is followed by exactly the bytes behind those, and one that took
/// none but did not fail by the same bytes again, after other threads were let run if the output
/// would have blocked. It is finished when no byte is left, and given up only when nothing more
/// is taken or the write failed.
pub proof fn law_writing_goes_on(data: Seq<u8>, event: WriteEvent, step: WriteStep)
    requires
        possible(data, event),
        write_step(data, event, step),
    ensures
        event matches WriteEvent::Wrote(n) ==> n > 0 ==> data == data.take(n as int) + left_by(
            step,
        ),
        event is Started || event is Interrupted || event is WouldBlock ==> data == left_by(step),
        step is Fail <==> event is Failed,
        step is WriteZero <==> event == WriteEvent::Wrote(0),
        step is YieldThenWrite <==> event is WouldBlock,
        step is Finished <==> data.len() == 0 || event == WriteEvent::Wrote(data.len() as usize)
            && data.len() <= usize::MAX,
        step is Write || step is YieldThenWrite <==> left_by(step).len() > 0,
{
    if let WriteEvent::Wrote(n) = event {
        assert(data.take(n as int) + data.skip(n as int) =~= data);
        if n > 0 {
            assert(left_by(step) =~= data.skip(n as int));
        }
    } else if data.len() == 0 {
        assert(left_by(step) =~= data);
    }
}

/// The steps go from event to event as `unwritten` does: as long as none of them gives up, each
/// leaves what is still to be written of the data.
pub proof fn law_steps_leave_the_unwritten(
    data: Seq<u8>,
    events: Seq<WriteEvent>,
    event: WriteEvent,
    step: WriteStep,
)
    requires
        possible_run(data, events.push(event)),
        write_step(unwritten(data, events), event, step),
    ensures
        !(step is Fail) && !(step is WriteZero) ==> left_by(step) == unwritten(
            data,
            events.push(event),
        ),
        step is Finished ==> taken(data, events.push(event)) == data,
{
    let all = events.push(event);
    assert(all.drop_last() =~= events);
    law_writing_goes_on(unwritten(data, events), event, step);
    law_every_byte_once(data, all);
    if let WriteEvent::Wrote(n) = event {
        let left = unwritten(data, events);
        assert(left.take(n as int) + left.skip(n as int) =~= left);
        if n > 0 && !(step is Fail) && !(step is WriteZero) {
            assert(left_by(step) =~= left.skip(n as int));
        }
    }
}

/// A flush is done when it succeeded, given up when it failed, and otherwise done again, after
/// other threads were let run if the output would have blocked.
pub proof fn law_flushing_goes_on(event: FlushEvent)
    ensures
        flush_step(event) is Finished <==> event is Flushed,
        flush_step(event) is Fail <==> event is Failed,
        flush_step(event) is YieldThenFlush <==> event is WouldBlock,
        flush_step(event) is Flush <==> event is Interrupted,
{
}

} // verus!
