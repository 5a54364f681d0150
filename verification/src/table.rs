//! The table of the examples that a run has registered and not yet settled.

use crate::error::{duplicate_id, expected_expression, expected_repl, session_not_found, RunError};
use crate::example_id::{ExampleId, ExampleIdView};
use crate::expression::ExpressionExampleState;
use crate::session::{ReplExampleState, ReplStateView};
use vstd::prelude::*;

verus! {

/// The state of an example as a mathematical value.
pub enum ExampleStateView {
    Repl(ReplStateView),
    Expression(ExpressionExampleState),
}

/// The state of an example, by its kind.
#[derive(Debug)]
pub enum ExampleState {
    Repl(ReplExampleState),
    Expression(ExpressionExampleState),
}

impl View for ExampleState {
    type V = ExampleStateView;

    open spec fn view(&self) -> ExampleStateView {
        match self {
            ExampleState::Repl(state) => ExampleStateView::Repl(state@),
            ExampleState::Expression(state) => ExampleStateView::Expression(*state),
        }
    }
}

/// One row of the table.
#[derive(Debug)]
struct Slot {
    id: ExampleId,
    state: ExampleState,
}

/// Whether row `i` is the row of `id`.
spec fn row_of(slots: Seq<Slot>, id: ExampleIdView, i: int) -> bool {
    0 <= i < slots.len() && slots[i].id@ == id
}

/// No identity has two rows.
spec fn distinct(slots: Seq<Slot>) -> bool {
    forall|i: int, j: int| 0 <= i < j < slots.len() ==> slots[i].id@ != slots[j].id@
}

/// The mapping that the rows stand for.
spec fn mapping(slots: Seq<Slot>) -> Map<ExampleIdView, ExampleStateView> {
    Map::new(
        |id: ExampleIdView| exists|i: int| row_of(slots, id, i),
        |id: ExampleIdView| slots[choose|i: int| row_of(slots, id, i)].state@,
    )
}

/// With one row each, the mapping holds at an identity what its row holds.
proof fn lemma_mapping_at(slots: Seq<Slot>, i: int)
    requires
        distinct(slots),
        0 <= i < slots.len(),
    ensures
        mapping(slots).contains_key(slots[i].id@),
        mapping(slots)[slots[i].id@] == slots[i].state@,
{
    let id = slots[i].id@;
    assert(row_of(slots, id, i));
    let k = choose|k: int| row_of(slots, id, k);
    assert(k == i) by {
        if k < i {
            assert(slots[k].id@ != slots[i].id@);
        } else if i < k {
            assert(slots[i].id@ != slots[k].id@);
        }
    }
}

/// A new row for a new identity registers it.
proof fn lemma_mapping_push(slots: Seq<Slot>, slot: Slot)
    requires
        distinct(slots),
        !mapping(slots).contains_key(slot.id@),
    ensures
        distinct(slots.push(slot)),
        mapping(slots.push(slot)) == mapping(slots).insert(slot.id@, slot.state@),
{
    let after = slots.push(slot);
    assert forall|i: int, j: int| 0 <= i < j < after.len() implies after[i].id@ != after[j].id@ by {
        if j == slots.len() {
            assert(row_of(slots, slots[i].id@, i));
        }
    }
    let expected = mapping(slots).insert(slot.id@, slot.state@);
    assert forall|id: ExampleIdView| mapping(after).contains_key(id) <==> expected.contains_key(
        id,
    ) by {
        if mapping(after).contains_key(id) {
            let i = choose|i: int| row_of(after, id, i);
            if i < slots.len() {
                assert(row_of(slots, id, i));
            }
        }
        if expected.contains_key(id) {
            if id == slot.id@ {
                assert(row_of(after, id, slots.len() as int));
            } else {
                let i = choose|i: int| row_of(slots, id, i);
                assert(row_of(after, id, i));
            }
        }
    }
    assert forall|id: ExampleIdView| mapping(after).contains_key(id) implies mapping(after)[id]
        == expected[id] by {
        let i = choose|i: int| row_of(after, id, i);
        lemma_mapping_at(after, i);
        if i < slots.len() {
            lemma_mapping_at(slots, i);
        }
    }
    assert(mapping(after) =~= expected);
}

/// Without a row, its identity is registered no more.
proof fn lemma_mapping_remove(slots: Seq<Slot>, i: int)
    requires
        distinct(slots),
        0 <= i < slots.len(),
    ensures
        distinct(slots.remove(i)),
        mapping(slots.remove(i)) == mapping(slots).remove(slots[i].id@),
{
    let after = slots.remove(i);
    let gone = slots[i].id@;
    assert forall|a: int| 0 <= a < after.len() implies after[a] == slots[if a < i {
        a
    } else {
        a + 1
    }] by {}
    assert forall|a: int, b: int| 0 <= a < b < after.len() implies after[a].id@ != after[b].id@ by {
        let a0 = if a < i {
            a
        } else {
            a + 1
        };
        let b0 = if b < i {
            b
        } else {
            b + 1
        };
        assert(slots[a0].id@ != slots[b0].id@);
    }
    let expected = mapping(slots).remove(gone);
    assert forall|id: ExampleIdView| mapping(after).contains_key(id) <==> expected.contains_key(
        id,
    ) by {
        if mapping(after).contains_key(id) {
            let k = choose|k: int| row_of(after, id, k);
            let k0 = if k < i {
                k
            } else {
                k + 1
            };
            assert(row_of(slots, id, k0));
            if k0 < i {
                assert(slots[k0].id@ != slots[i].id@);
            } else {
                assert(slots[i].id@ != slots[k0].id@);
            }
        }
        if expected.contains_key(id) {
            let k = choose|k: int| row_of(slots, id, k);
            assert(k != i);
            let k1 = if k < i {
                k
            } else {
                k - 1
            };
            assert(row_of(after, id, k1));
        }
    }
    assert forall|id: ExampleIdView| mapping(after).contains_key(id) implies mapping(after)[id]
        == expected[id] by {
        let k = choose|k: int| row_of(after, id, k);
        let k0 = if k < i {
            k
        } else {
            k + 1
        };
        lemma_mapping_at(after, k);
        lemma_mapping_at(slots, k0);
    }
    assert(mapping(after) =~= expected);
}

/// The examples of a run that are registered and not yet settled, each under
/// its identity. No identity is registered twice.
#[derive(Debug)]
pub struct ExamplesState {
    slots: Vec<Slot>,
}

impl View for ExamplesState {
    type V = Map<ExampleIdView, ExampleStateView>;

    closed spec fn view(&self) -> Map<ExampleIdView, ExampleStateView> {
        mapping(self.slots@)
    }
}

impl ExamplesState {
    /// No identity has two rows.
    #[verifier::type_invariant]
    spec fn one_row_each(self) -> bool {
        distinct(self.slots@)
    }

    /// The table without examples.
    pub fn new() -> (table: Self)
        ensures
            table@ == Map::<ExampleIdView, ExampleStateView>::empty(),
    {
        let table = ExamplesState { slots: Vec::new() };
        proof {
            assert(mapping(table.slots@) =~= Map::<ExampleIdView, ExampleStateView>::empty());
        }
        table
    }

    /// The row of `id`, if it has one.
    fn position(&self, id: &ExampleId) -> (found: Option<usize>)
        ensures
            found is Some <==> self@.contains_key(id@),
            found matches Some(i) ==> row_of(self.slots@, id@, i as int),
    {
        let mut i: usize = 0;
        while i < self.slots.len()
            invariant
                i <= self.slots.len(),
                forall|j: int| 0 <= j < i ==> self.slots@[j].id@ != id@,
            decreases self.slots.len() - i,
        {
            if self.slots[i].id == *id {
                proof {
                    assert(row_of(self.slots@, id@, i as int));
                }
                return Some(i);
            }
            i += 1;
        }
        proof {
            if self@.contains_key(id@) {
                let k = choose|k: int| row_of(self.slots@, id@, k);
                assert(self.slots@[k].id@ != id@);
            }
        }
        None
    }

    /// Registers `state` under `id`. An identity that is taken is an error;
    /// the state given stands under it all the same.
    pub fn insert(&mut self, id: ExampleId, state: ExampleState) -> (r: Result<(), RunError>)
        ensures
            final(self)@ == old(self)@.insert(id@, state@),
            r is Err <==> old(self)@.contains_key(id@),
            r matches Err(e) ==> e@ == duplicate_id(id@),
    {
        proof {
            use_type_invariant(&*self);
        }
        match self.position(&id) {
            Some(i) => {
                let error = RunError::duplicate_id(&id);
                let slot = Slot { id, state };
                proof {
                    lemma_mapping_remove(self.slots@, i as int);
                    lemma_mapping_push(self.slots@.remove(i as int), slot);
                    assert(old(self)@.remove(id@).insert(id@, state@) =~= old(self)@.insert(
                        id@,
                        state@,
                    ));
                }
                let mut slots: Vec<Slot> = Vec::new();
                std::mem::swap(&mut self.slots, &mut slots);
                let _ = slots.remove(i);
                slots.push(slot);
                std::mem::swap(&mut self.slots, &mut slots);
                Err(error)
            },
            None => {
                let slot = Slot { id, state };
                proof {
                    lemma_mapping_push(self.slots@, slot);
                }
                let mut slots: Vec<Slot> = Vec::new();
                std::mem::swap(&mut self.slots, &mut slots);
                slots.push(slot);
                std::mem::swap(&mut self.slots, &mut slots);
                Ok(())
            },
        }
    }

    /// Takes the example registered under `id` out of the table.
    pub fn remove(&mut self, id: &ExampleId) -> (r: Result<ExampleState, RunError>)
        ensures
            r is Ok <==> old(self)@.contains_key(id@),
            r matches Ok(state) ==> state@ == old(self)@[id@] && final(self)@ == old(self)@.remove(
                id@,
            ),
            r matches Err(e) ==> e@ == session_not_found(id@) && final(self)@ == old(self)@,
    {
        proof {
            use_type_invariant(&*self);
        }
        match self.position(id) {
            Some(i) => {
                proof {
                    lemma_mapping_remove(self.slots@, i as int);
                    lemma_mapping_at(self.slots@, i as int);
                }
                let mut slots: Vec<Slot> = Vec::new();
                std::mem::swap(&mut self.slots, &mut slots);
                let slot = slots.remove(i);
                std::mem::swap(&mut self.slots, &mut slots);
                Ok(slot.state)
            },
            None => Err(RunError::session_not_found(id)),
        }
    }

    /// Whether no example is registered.
    pub fn is_empty(&self) -> (b: bool)
        ensures
            b == (self@.dom() =~= Set::<ExampleIdView>::empty()),
    {
        proof {
            if self.slots@.len() > 0 {
                assert(row_of(self.slots@, self.slots@[0].id@, 0));
                assert(self@.dom().contains(self.slots@[0].id@));
            }
        }
        self.slots.len() == 0
    }

    /// Whether an example is registered under `id`.
    pub fn contains(&self, id: &ExampleId) -> (b: bool)
        ensures
            b == self@.contains_key(id@),
    {
        self.position(id).is_some()
    }

    /// The state of the example registered under `id`.
    pub fn get(&self, id: &ExampleId) -> (r: Result<&ExampleState, RunError>)
        ensures
            r is Ok <==> self@.contains_key(id@),
            r matches Ok(state) ==> state@ == self@[id@],
            r matches Err(e) ==> e@ == session_not_found(id@),
    {
        proof {
            use_type_invariant(self);
        }
        match self.position(id) {
            Some(i) => {
                proof {
                    lemma_mapping_at(self.slots@, i as int);
                }
                Ok(&self.slots[i].state)
            },
            None => Err(RunError::session_not_found(id)),
        }
    }

    /// Takes the interactive example registered under `id` out of the
    /// table. Where there is none, the table stays as it is.
    pub fn take_repl(&mut self, id: &ExampleId) -> (r: Result<ReplExampleState, RunError>)
        ensures
            r is Ok <==> old(self)@.contains_key(id@) && old(self)@[id@] is Repl,
            r matches Ok(state) ==> old(self)@[id@] == ExampleStateView::Repl(state@)
                && final(self)@ == old(self)@.remove(id@),
            r matches Err(e) ==> final(self)@ == old(self)@ && e@ == (if old(self)@.contains_key(
                id@,
            ) {
                expected_repl()
            } else {
                session_not_found(id@)
            }),
    {
        match self.remove(id) {
            Err(e) => Err(e),
            Ok(ExampleState::Repl(state)) => Ok(state),
            Ok(ExampleState::Expression(state)) => {
                let back = self.insert(id.clone(), ExampleState::Expression(state));
                proof {
                    assert(old(self)@.remove(id@).insert(id@, old(self)@[id@]) =~= old(self)@);
                }
                Err(RunError::expected_repl())
            },
        }
    }

    /// Takes the expression example registered under `id` out of the table.
    /// Where there is none, the table stays as it is.
    pub fn take_expression(&mut self, id: &ExampleId) -> (r: Result<
        ExpressionExampleState,
        RunError,
    >)
        ensures
            r is Ok <==> old(self)@.contains_key(id@) && old(self)@[id@] is Expression,
            r matches Ok(state) ==> old(self)@[id@] == ExampleStateView::Expression(state)
                && final(self)@ == old(self)@.remove(id@),
            r matches Err(e) ==> final(self)@ == old(self)@ && e@ == (if old(self)@.contains_key(
                id@,
            ) {
                expected_expression()
            } else {
                session_not_found(id@)
            }),
    {
        match self.remove(id) {
            Err(e) => Err(e),
            Ok(ExampleState::Expression(state)) => Ok(state),
            Ok(ExampleState::Repl(state)) => {
                let back = self.insert(id.clone(), ExampleState::Repl(state));
                proof {
                    assert(old(self)@.remove(id@).insert(id@, old(self)@[id@]) =~= old(self)@);
                }
                Err(RunError::expected_expression())
            },
        }
    }
}

} // verus!
