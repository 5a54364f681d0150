//! Examples do not touch each other: any interleaving of their events is as
//! good as any other.

use crate::event::InputEventView;
use crate::example_id::ExampleIdView;
use crate::expression::ExpressionEventView;
use crate::laws::flush::lines;
use crate::laws::id_of;
use crate::repl::driver::ReplEventView;
use crate::state::{run, StateView};
use crate::table::ExampleStateView;
use vstd::prelude::*;

verus! {

/// Whether an event is about the example `id`: hands it in, or reports of
/// its interpreter or its evaluation.
pub open spec fn concerns(event: InputEventView, id: ExampleIdView) -> bool {
    match event {
        InputEventView::Example(example) => id_of(example) == id,
        InputEventView::ReplEvent(ReplEventView::Spawn(Ok(named))) => named == id,
        InputEventView::ReplEvent(ReplEventView::Kill(Ok(named))) => named == id,
        InputEventView::ReplEvent(ReplEventView::Read(named, _)) => named == id,
        InputEventView::ExpressionEvent(ExpressionEventView::Spawn(Ok(named))) => named == id,
        InputEventView::ExpressionEvent(ExpressionEventView::Output(Ok((named, _)))) => named
            == id,
        _ => false,
    }
}

/// The events among `events` that are about the example `id`, in order.
pub open spec fn about(events: Seq<InputEventView>, id: ExampleIdView) -> Seq<InputEventView>
    decreases events.len(),
{
    if events.len() == 0 {
        Seq::empty()
    } else if concerns(events[0], id) {
        seq![events[0]] + about(events.drop_first(), id)
    } else {
        about(events.drop_first(), id)
    }
}

/// The state of the example that is registered under `id`, if one is.
pub open spec fn entry_of(state: StateView, id: ExampleIdView) -> Option<ExampleStateView> {
    if state.examples.contains_key(id) {
        Some(state.examples[id])
    } else {
        None
    }
}

/// A run that holds nothing but `entry` under `id`.
pub open spec fn alone(id: ExampleIdView, entry: Option<ExampleStateView>) -> StateView {
    StateView {
        examples: match entry {
            Some(state) => Map::<ExampleIdView, ExampleStateView>::empty().insert(id, state),
            None => Map::empty(),
        },
        pending_eprintlns: 0,
        error: None,
    }
}

/// What a sequence of events about an example make of it when nothing else
/// happens.
pub open spec fn alone_after(
    id: ExampleIdView,
    entry: Option<ExampleStateView>,
    events: Seq<InputEventView>,
) -> Option<ExampleStateView>
    decreases events.len(),
{
    if events.len() == 0 {
        entry
    } else {
        alone_after(id, entry_of(alone(id, entry).handle(events[0]).0, id), events.drop_first())
    }
}

/// Examples do not touch each other. An event that is not about an example
/// leaves the example as it is. An event that is about it does to it, and
/// asks or fails for it, what it would in a run that holds nothing else:
/// neither the other examples nor the report lines outstanding nor an error
/// recorded make a difference.
#[verifier::rlimit(40)]
pub proof fn lemma_events_are_local(state: StateView, event: InputEventView, id: ExampleIdView)
    ensures
        entry_of(state.event(event).0, id) == entry_of(state.handle(event).0, id),
        !concerns(event, id) ==> entry_of(state.event(event).0, id) == entry_of(state, id),
        concerns(event, id) ==> entry_of(state.event(event).0, id) == entry_of(
            alone(id, entry_of(state, id)).handle(event).0,
            id,
        ),
        concerns(event, id) ==> state.handle(event).1 == alone(id, entry_of(state, id)).handle(
            event,
        ).1,
{
    let lone = alone(id, entry_of(state, id));
    assert(entry_of(lone, id) == entry_of(state, id));
}

/// Any interleaving is as good as any other: what a run makes of an example
/// is what the events about it, in their order, make of it when nothing
/// else happens, whatever other events come in between.
pub proof fn lemma_interleaving_does_not_matter(
    state: StateView,
    events: Seq<InputEventView>,
    id: ExampleIdView,
)
    ensures
        entry_of(run(state, events).0, id) == alone_after(
            id,
            entry_of(state, id),
            about(events, id),
        ),
    decreases events.len(),
{
    if events.len() > 0 {
        let next = state.event(events[0]).0;
        lemma_events_are_local(state, events[0], id);
        lemma_interleaving_does_not_matter(next, events.drop_first(), id);
        if concerns(events[0], id) {
            let mine = about(events, id);
            assert(mine[0] == events[0]);
            assert(mine.drop_first() =~= about(events.drop_first(), id));
        }
    }
}

/// Events that are all about an example are the events about it.
pub proof fn lemma_about_own(events: Seq<InputEventView>, id: ExampleIdView)
    requires
        forall|i: int| 0 <= i < events.len() ==> concerns(#[trigger] events[i], id),
    ensures
        about(events, id) == events,
    decreases events.len(),
{
    if events.len() > 0 {
        let rest = events.drop_first();
        assert forall|i: int| 0 <= i < rest.len() implies concerns(#[trigger] rest[i], id) by {
            assert(rest[i] == events[i + 1]);
        }
        lemma_about_own(rest, id);
        assert(seq![events[0]] + rest =~= events);
    } else {
        assert(about(events, id) =~= events);
    }
}

} // verus!
