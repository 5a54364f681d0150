//! What holds of every run: laws of the reducer, stated over whole
//! sequences of events.

pub mod failure;
pub mod flush;
pub mod locality;
pub mod mirror;

use crate::event::{InputEventView, OutputEventView};
use crate::example_id::ExampleIdView;
use crate::examples::ExampleView;
use crate::repl::driver::ReplEventView;
use crate::repl::example::ReplExampleView;
use crate::session::{LiveView, ReplStateView, SessionView};
use crate::state::{run, StateView};
use crate::table::ExampleStateView;
use vstd::prelude::*;

verus! {

/// Running two sequences of events one after the other is running their
/// concatenation.
pub proof fn lemma_run_concat(
    state: StateView,
    first: Seq<InputEventView>,
    second: Seq<InputEventView>,
)
    ensures
        run(state, first + second) == ({
            let (middle, before) = run(state, first);
            let (last, after) = run(middle, second);
            (last, before + after)
        }),
    decreases first.len(),
{
    if first.len() == 0 {
        assert(first + second =~= second);
        assert(Seq::<OutputEventView>::empty() + run(state, second).1 =~= run(state, second).1);
    } else {
        let (next, head) = state.event(first[0]);
        assert((first + second)[0] == first[0]);
        assert((first + second).drop_first() =~= first.drop_first() + second);
        lemma_run_concat(next, first.drop_first(), second);
        let (middle, before) = run(next, first.drop_first());
        let (last, after) = run(middle, second);
        assert(head + (before + after) =~= (head + before) + after);
    }
}

/// The identity under which an example is registered.
pub open spec fn id_of(example: ExampleView) -> ExampleIdView {
    match example {
        ExampleView::Repl(example) => example.id,
        ExampleView::Expression(example) => example.id,
    }
}

/// The event of a byte that the interpreter of example `id` wrote.
pub open spec fn read(id: ExampleIdView, byte: u8) -> InputEventView {
    InputEventView::ReplEvent(ReplEventView::Read(id, byte))
}

/// The events of a stretch of bytes that the interpreter of example `id`
/// wrote.
pub open spec fn reads(id: ExampleIdView, bytes: Seq<u8>) -> Seq<InputEventView> {
    bytes.map_values(|byte: u8| read(id, byte))
}

/// Whether the session of `example`, registered under `id`, is live and
/// stands at `live`.
pub open spec fn session_at(
    state: StateView,
    id: ExampleIdView,
    example: ReplExampleView,
    live: LiveView,
) -> bool {
    state.examples.contains_key(id) && state.examples[id] == ExampleStateView::Repl(
        ReplStateView { example, state: SessionView::Live(live) },
    )
}

/// Running the events of a stretch of bytes is handling the first byte, then
/// running the events of the others.
pub proof fn lemma_run_reads_first(state: StateView, id: ExampleIdView, bytes: Seq<u8>)
    requires
        bytes.len() > 0,
    ensures
        run(state, reads(id, bytes)) == ({
            let (next, first) = state.event(read(id, bytes[0]));
            let (last, rest) = run(next, reads(id, bytes.drop_first()));
            (last, first + rest)
        }),
{
    assert(reads(id, bytes).drop_first() =~= reads(id, bytes.drop_first()));
}

/// The events of two stretches of bytes, one after the other, are the events
/// of their concatenation.
pub proof fn lemma_reads_concat(id: ExampleIdView, a: Seq<u8>, b: Seq<u8>)
    ensures
        reads(id, a + b) == reads(id, a) + reads(id, b),
{
    assert(reads(id, a + b) =~= reads(id, a) + reads(id, b));
}

/// Running two events is handling the one, then the other.
pub proof fn lemma_run_two(state: StateView, first: InputEventView, second: InputEventView)
    ensures
        run(state, seq![first, second]) == ({
            let (middle, before) = state.event(first);
            let (last, after) = middle.event(second);
            (last, before + after)
        }),
{
    let events = seq![first, second];
    let (middle, before) = state.event(first);
    let (last, after) = middle.event(second);
    assert(events.drop_first() =~= seq![second]);
    assert(events.drop_first().drop_first() =~= Seq::<InputEventView>::empty());
    assert(run(last, events.drop_first().drop_first()) == (last, Seq::<OutputEventView>::empty()));
    assert(run(middle, events.drop_first()) == (last, after + Seq::<OutputEventView>::empty()));
    assert(after + Seq::<OutputEventView>::empty() =~= after);
}

} // verus!
