//! The first error stays: what fails a run, and that nothing undoes it.

use crate::clear_line::clear_line_bytes;
use crate::error::{duplicate_id, result_mismatch, RunErrorView};
use crate::event::{InputEventView, OutputEventView};
use crate::example_id::ExampleIdView;
use crate::examples::ExampleView;
use crate::laws::flush::{has_done, lemma_handle_counts};
use crate::laws::{id_of, read, session_at};
use crate::repl::example::{EntryView, ReplExampleView};
use crate::sanitize::observed;
use crate::session::{result_bytes, ExpectingView, LiveView};
use crate::state::{run, StateView};
use crate::text::ends_with;
use vstd::prelude::*;
use vstd::utf8::*;

verus! {

/// The first error stays, for one event: once an error is recorded, every
/// event leaves it as it is, and if the run ends, it ends with that error.
#[verifier::rlimit(40)]
pub proof fn lemma_event_keeps_error(state: StateView, event: InputEventView)
    requires
        state.error is Some,
    ensures
        ({
            let (next, outputs) = state.event(event);
            &&& next.error == state.error
            &&& forall|i: int|
                0 <= i < outputs.len() && outputs[i] is Done ==> outputs[i]
                    == OutputEventView::Done(Err(state.error->0))
        }),
{
    let (handled, outcome) = state.handle(event);
    let next = handled.record(outcome);
    let outputs = next.report(outcome);
    lemma_handle_counts(state, event);
    if !(next.flushed() && next.error is Some) {
        if next.flushed() && next.settled() {
        } else {
            assert forall|i: int| 0 <= i < outputs.len() implies !(outputs[i] is Done) by {
                assert(outcome is Ok ==> !has_done(outcome->Ok_0));
            }
        }
    }
}

/// The first error stays, for a whole run: after an error, no sequence of
/// events changes it, and the run can end in no other way than with it.
pub proof fn lemma_failure_is_final(state: StateView, events: Seq<InputEventView>)
    requires
        state.error is Some,
    ensures
        ({
            let (last, outputs) = run(state, events);
            &&& last.error == state.error
            &&& forall|i: int|
                0 <= i < outputs.len() && outputs[i] is Done ==> outputs[i]
                    == OutputEventView::Done(Err(state.error->0))
        }),
    decreases events.len(),
{
    if events.len() > 0 {
        let (next, first) = state.event(events[0]);
        lemma_event_keeps_error(state, events[0]);
        lemma_failure_is_final(next, events.drop_first());
    }
}

/// An error that an event's handling raises while none is recorded becomes
/// the run's error.
pub proof fn lemma_first_error_is_recorded(state: StateView, event: InputEventView)
    requires
        state.error is None,
        state.handle(event).1 is Err,
    ensures
        state.event(event).0.error == Some(state.handle(event).1->Err_0),
{
    lemma_handle_counts(state, event);
}

/// Registering an example under an identity that is taken fails, whatever
/// the kind of the example and of the one that holds the identity; and the
/// failure fails the run.
pub proof fn lemma_duplicate_registration_fails(state: StateView, example: ExampleView)
    requires
        state.examples.contains_key(id_of(example)),
    ensures
        state.example(example).1 == Err::<Seq<OutputEventView>, RunErrorView>(
            duplicate_id(id_of(example)),
        ),
        state.event(InputEventView::Example(example)).0.error is Some,
        state.error is None ==> state.event(InputEventView::Example(example)).0.error == Some(
            duplicate_id(id_of(example)),
        ),
{
}

/// A result that differs from the expected text fails the run: the error
/// that is recorded is the failure block that shows the example, then the
/// text that the interpreter showed, then the expected text, each verbatim.
/// The run ends with it at once if no report line is outstanding; and
/// whatever events follow, it can end in no other way.
#[verifier::rlimit(40)]
pub proof fn lemma_mismatch_fails_run(
    state: StateView,
    id: ExampleIdView,
    example: ReplExampleView,
    remaining: Seq<EntryView>,
    acc: Seq<u8>,
    expected_result: Seq<char>,
    byte: u8,
    later: Seq<InputEventView>,
)
    requires
        state.error is None,
        session_at(
            state,
            id,
            example,
            LiveView {
                remaining,
                expecting: ExpectingView::ResultAndClearlineBeforeNextPrompt {
                    acc,
                    expected_result,
                },
            },
        ),
        ends_with(acc.push(byte), clear_line_bytes()),
        decode_utf8(observed(result_bytes(acc.push(byte)))) != expected_result,
    ensures
        ({
            let actual = decode_utf8(observed(result_bytes(acc.push(byte))));
            let failure = result_mismatch(id, actual, expected_result);
            let (next, outputs) = state.event(read(id, byte));
            &&& failure.message == id.display() + "\n\nActual:\n\n```\n"@ + actual
                + "\n```\n\nExpected:\n\n```\n"@ + expected_result + "\n```"@
            &&& next.error == Some(failure)
            &&& outputs == if state.pending_eprintlns == 0 {
                seq![OutputEventView::Done(Err(failure))]
            } else {
                Seq::empty()
            }
            &&& run(next, later).0.error == Some(failure)
            &&& forall|i: int|
                0 <= i < run(next, later).1.len() && run(next, later).1[i] is Done ==> run(
                    next,
                    later,
                ).1[i] == OutputEventView::Done(Err(failure))
        }),
{
    let (next, outputs) = state.event(read(id, byte));
    lemma_failure_is_final(next, later);
}

} // verus!
