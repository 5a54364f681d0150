//! Flush before exit: report lines are counted until they are written, and
//! a run ends only when none is left to write.

use crate::event::{InputEventView, OutputEventView};
use crate::state::{run, StateView};
use vstd::prelude::*;

verus! {

/// The number of report lines among the outputs.
pub open spec fn lines(outputs: Seq<OutputEventView>) -> nat
    decreases outputs.len(),
{
    if outputs.len() == 0 {
        0
    } else {
        lines(outputs.drop_last()) + if outputs.last() is Eprintln {
            1nat
        } else {
            0nat
        }
    }
}

/// The number of acknowledgements of a written report line among the events.
pub open spec fn flushes(events: Seq<InputEventView>) -> nat
    decreases events.len(),
{
    if events.len() == 0 {
        0
    } else {
        flushes(events.drop_first()) + if events[0] is Eprintlned {
            1nat
        } else {
            0nat
        }
    }
}

/// Whether the end of the run is among the outputs.
pub open spec fn has_done(outputs: Seq<OutputEventView>) -> bool {
    exists|i: int| 0 <= i < outputs.len() && outputs[i] is Done
}

/// The report lines of two stretches of outputs add up.
pub proof fn lemma_lines_concat(a: Seq<OutputEventView>, b: Seq<OutputEventView>)
    ensures
        lines(a + b) == lines(a) + lines(b),
    decreases b.len(),
{
    if b.len() == 0 {
        assert(a + b =~= a);
    } else {
        assert((a + b).drop_last() =~= a + b.drop_last());
        assert((a + b).last() == b.last());
        lemma_lines_concat(a, b.drop_last());
    }
}

/// The report lines among at most two outputs, counted one by one.
pub proof fn lemma_lines_small(outputs: Seq<OutputEventView>)
    ensures
        outputs.len() == 0 ==> lines(outputs) == 0,
        outputs.len() == 1 ==> lines(outputs) == if outputs[0] is Eprintln {
            1nat
        } else {
            0nat
        },
        outputs.len() == 2 ==> lines(outputs) == (if outputs[0] is Eprintln {
            1nat
        } else {
            0nat
        }) + (if outputs[1] is Eprintln {
            1nat
        } else {
            0nat
        }),
{
    reveal_with_fuel(lines, 3);
    if outputs.len() == 2 {
        assert(outputs.drop_last().drop_last().len() == 0);
        assert(outputs.drop_last().last() == outputs[0]);
    } else if outputs.len() == 1 {
        assert(outputs.drop_last().len() == 0);
    }
}

/// One event's handling never puts out the end of the run, and counts every
/// report line that it puts out as outstanding.
pub proof fn lemma_handle_counts(state: StateView, event: InputEventView)
    ensures
        ({
            let (handled, outcome) = state.handle(event);
            &&& handled.error == state.error
            &&& outcome matches Ok(outputs) ==> !has_done(outputs) && handled.pending_eprintlns
                + (if event is Eprintlned {
                1nat
            } else {
                0nat
            }) == state.pending_eprintlns + lines(outputs)
            &&& outcome is Err ==> handled.pending_eprintlns == state.pending_eprintlns
        }),
{
    let (handled, outcome) = state.handle(event);
    if let Ok(outputs) = outcome {
        lemma_lines_small(outputs);
    }
}

/// Flush before exit, for one event: the end of the run is put out only when
/// no report line is outstanding, and the lines that an event puts out are
/// counted as outstanding until they are acknowledged.
#[verifier::rlimit(40)]
pub proof fn lemma_event_accounting(state: StateView, event: InputEventView)
    ensures
        ({
            let (next, outputs) = state.event(event);
            &&& has_done(outputs) ==> next.pending_eprintlns == 0 && outputs.len() == 1
            &&& next.pending_eprintlns + (if event is Eprintlned {
                1nat
            } else {
                0nat
            }) >= state.pending_eprintlns + lines(outputs)
        }),
{
    let (handled, outcome) = state.handle(event);
    let next = handled.record(outcome);
    let outputs = next.report(outcome);
    lemma_handle_counts(state, event);
    lemma_lines_small(outputs);
    if next.flushed() && (next.error is Some || next.settled()) {
        assert(outputs[0] is Done);
    } else {
        if has_done(outputs) {
            let i = choose|i: int| 0 <= i < outputs.len() && outputs[i] is Done;
            assert(outcome is Ok);
        }
    }
}

/// Flush before exit, for a whole run: at every moment, each report line
/// that was put out is either still counted as outstanding or was
/// acknowledged as written. So when the run ends, which it does only with
/// none outstanding, every line that was put out before has been written.
pub proof fn lemma_flush_before_exit(events: Seq<InputEventView>, last: InputEventView)
    ensures
        ({
            let (before, reported) = run(StateView::initial(), events);
            let (after, outputs) = before.event(last);
            &&& lines(reported) <= before.pending_eprintlns + flushes(events)
            &&& has_done(outputs) ==> lines(reported) <= flushes(events.push(last))
        }),
{
    lemma_run_accounting(StateView::initial(), events);
    let (before, reported) = run(StateView::initial(), events);
    lemma_event_accounting(before, last);
    lemma_flushes_push(events, last);
}

/// One more event is one more acknowledgement if it is one.
proof fn lemma_flushes_push(events: Seq<InputEventView>, last: InputEventView)
    ensures
        flushes(events.push(last)) == flushes(events) + if last is Eprintlned {
            1nat
        } else {
            0nat
        },
    decreases events.len(),
{
    if events.len() == 0 {
        assert(events.push(last).drop_first() =~= events);
    } else {
        assert(events.push(last).drop_first() =~= events.drop_first().push(last));
        lemma_flushes_push(events.drop_first(), last);
    }
}

/// Over a whole run, no report line is lost from the count.
proof fn lemma_run_accounting(state: StateView, events: Seq<InputEventView>)
    ensures
        ({
            let (last, outputs) = run(state, events);
            state.pending_eprintlns + lines(outputs) <= last.pending_eprintlns + flushes(events)
        }),
    decreases events.len(),
{
    if events.len() == 0 {
    } else {
        let (next, first) = state.event(events[0]);
        let (last, rest) = run(next, events.drop_first());
        lemma_event_accounting(state, events[0]);
        lemma_run_accounting(next, events.drop_first());
        lemma_lines_concat(first, rest);
    }
}

/// When a run ends, and how: after an event, the end of the run is put out
/// exactly when no report line is outstanding and either an error is
/// recorded, with which it ends, or no example is left, and it ends passed.
/// Nothing else is put out with it.
pub proof fn lemma_run_ends_when_settled_and_flushed(state: StateView, event: InputEventView)
    ensures
        ({
            let (next, outputs) = state.event(event);
            &&& has_done(outputs) <==> next.flushed() && (next.error is Some || next.settled())
            &&& has_done(outputs) ==> outputs == seq![
                OutputEventView::Done(
                    match next.error {
                        Some(e) => Err(e),
                        None => Ok(()),
                    },
                ),
            ]
        }),
{
    let (handled, outcome) = state.handle(event);
    let next = handled.record(outcome);
    let outputs = next.report(outcome);
    lemma_handle_counts(state, event);
    if next.flushed() && (next.error is Some || next.settled()) {
        assert(outputs[0] is Done);
    } else if has_done(outputs) {
        assert(outcome is Ok);
    }
}

/// One event leaves at most one more report line outstanding.
pub proof fn lemma_event_adds_at_most_one_line(state: StateView, event: InputEventView)
    ensures
        state.event(event).0.pending_eprintlns <= state.pending_eprintlns + 1,
{
    lemma_handle_counts(state, event);
}

} // verus!
