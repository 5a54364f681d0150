//! The reducer: the one state of a run, and what each event does to it.

use crate::error::{
    already_live, driver_failed, duplicate_id, expected_expression, expected_repl,
    expression_failed, no_examples, session_not_found, session_not_live, unexpected_flush,
    RunError, RunErrorView,
};
use crate::event::{outputs_view, InputEvent, InputEventView, OutputEvent, OutputEventView};
use crate::example_id::{ExampleId, ExampleIdView};
use crate::examples::{examples_view, Example, ExampleView};
use crate::expression::{
    EvaluateExpression, ExpressionEvent, ExpressionEventView, ExpressionExampleState,
    ExpressionOutput, ExpressionOutputView,
};
use crate::laws::flush::lemma_event_adds_at_most_one_line;
use crate::laws::mirror::{
    all_plainly_written, learned_along, lemma_learned_concat, lemma_printed_session_passes,
    mirrored_stream, passed, queries, with_passed,
};
use crate::laws::{lemma_run_concat, read, reads, session_at};
use crate::repl::driver::{ReplCommand, ReplCommandView, ReplEvent, ReplEventView, ReplQuery};
use crate::repl::example::{ReplExample, ReplExampleView};
use crate::sanitize::sanitizing_is_known;
use crate::session::{
    judged, live_read, live_start, ReplExampleState, ReplSessionLive, ReplSessionState,
    ReplStateView, SessionTurn, SessionView, Turn,
};
use crate::table::{ExampleState, ExampleStateView, ExamplesState};
use crate::text::{lossy_is_decoding, string_from_utf8_lossy, utf8_lossy};
use vstd::prelude::*;
use vstd::string::*;

verus! {

/// What handling one event gives: the outputs, or the error that ends the
/// run.
pub type Outcome = Result<Seq<OutputEventView>, RunErrorView>;

/// The report line of an example that has passed.
pub open spec fn pass_line(id: ExampleIdView) -> Seq<char> {
    "PASS: "@ + id.display()
}

/// The state of a run as a mathematical value.
#[verifier::ext_equal]
pub struct StateView {
    /// The examples that are registered and not yet settled.
    pub examples: Map<ExampleIdView, ExampleStateView>,
    /// The number of report lines that were handed out and are not yet
    /// acknowledged as written.
    pub pending_eprintlns: nat,
    /// The first error of the run, once there was one.
    pub error: Option<RunErrorView>,
}

impl StateView {
    /// The state in which a run begins.
    pub open spec fn initial() -> StateView {
        StateView { examples: Map::empty(), pending_eprintlns: 0, error: None }
    }

    /// This state with `state` registered under `id`.
    pub open spec fn with_example(self, id: ExampleIdView, state: ExampleStateView) -> StateView {
        StateView { examples: self.examples.insert(id, state), ..self }
    }

    /// This state with the session of the interactive example `example`
    /// registered under `id`.
    pub open spec fn with_session(
        self,
        id: ExampleIdView,
        example: ReplExampleView,
        state: SessionView,
    ) -> StateView {
        self.with_example(id, ExampleStateView::Repl(ReplStateView { example, state }))
    }

    /// This state with one more report line outstanding.
    pub open spec fn with_line_pending(self) -> StateView {
        StateView { pending_eprintlns: self.pending_eprintlns + 1, ..self }
    }

    /// An example is handed in: it is registered as pending, and its
    /// interpreter or its evaluation is asked for. An identity that is taken
    /// is an error.
    pub open spec fn example(self, example: ExampleView) -> (StateView, Outcome) {
        let (id, state, command) = match example {
            ExampleView::Repl(example) => (
                example.id,
                ExampleStateView::Repl(ReplStateView { example, state: SessionView::Pending }),
                OutputEventView::ReplCommand(ReplCommandView::Spawn(example.id)),
            ),
            ExampleView::Expression(example) => (
                example.id,
                ExampleStateView::Expression(ExpressionExampleState::Pending),
                OutputEventView::ExpressionCommand(example),
            ),
        };
        (
            self.with_example(id, state),
            if self.examples.contains_key(id) {
                Err(duplicate_id(id))
            } else {
                Ok(seq![command])
            },
        )
    }

    /// An interpreter was started, or could not be. The session of a started
    /// interpreter becomes live, with all its exchanges to come.
    pub open spec fn repl_event_spawn(self, spawn: Result<ExampleIdView, Seq<char>>) -> (
        StateView,
        Outcome,
    ) {
        match spawn {
            Err(message) => (self, Err(driver_failed(message))),
            Ok(id) => if !self.examples.contains_key(id) {
                (self, Err(session_not_found(id)))
            } else {
                match self.examples[id] {
                    ExampleStateView::Expression(_) => (self, Err(expected_repl())),
                    ExampleStateView::Repl(session) => if session.state is Live {
                        (self, Err(already_live(id)))
                    } else {
                        (
                            self.with_session(
                                id,
                                session.example,
                                SessionView::Live(live_start(session.example.entries)),
                            ),
                            Ok(seq![]),
                        )
                    },
                }
            },
        }
    }

    /// A query was written, or could not be.
    pub open spec fn repl_event_query(self, result: Result<(), Seq<char>>) -> (StateView, Outcome) {
        match result {
            Err(message) => (self, Err(driver_failed(message))),
            Ok(()) => (self, Ok(seq![])),
        }
    }

    /// An interpreter was released, or there was none. The example of a
    /// released interpreter is settled.
    pub open spec fn repl_event_kill(self, result: Result<ExampleIdView, Seq<char>>) -> (
        StateView,
        Outcome,
    ) {
        match result {
            Err(message) => (self, Err(driver_failed(message))),
            Ok(id) => if self.examples.contains_key(id) {
                (StateView { examples: self.examples.remove(id), ..self }, Ok(seq![]))
            } else {
                (self, Err(session_not_found(id)))
            },
        }
    }

    /// A session has ended: its interpreter is to be released, and the
    /// example is reported as passed.
    pub open spec fn session_end(self, id: ExampleIdView, example: ReplExampleView) -> (
        StateView,
        Outcome,
    ) {
        (
            self.with_session(id, example, SessionView::Killing).with_line_pending(),
            Ok(
                seq![
                    OutputEventView::ReplCommand(ReplCommandView::Kill(id)),
                    OutputEventView::Eprintln(pass_line(id)),
                ],
            ),
        )
    }

    /// An interpreter wrote a byte: the byte goes to its session, and what
    /// it leads to is acted on.
    pub open spec fn repl_event_read(self, id: ExampleIdView, byte: u8) -> (StateView, Outcome) {
        if !self.examples.contains_key(id) {
            (self, Err(session_not_found(id)))
        } else {
            match self.examples[id] {
                ExampleStateView::Expression(_) => (self, Err(expected_repl())),
                ExampleStateView::Repl(session) => match session.state {
                    SessionView::Live(live) => {
                        let (live, turn) = live_read(live, id, byte);
                        let read = self.with_session(id, session.example, SessionView::Live(live));
                        match turn {
                            Turn::Waiting => (read, Ok(seq![])),
                            Turn::Query(query) => (
                                read,
                                Ok(
                                    seq![
                                        OutputEventView::ReplCommand(
                                            ReplCommandView::Query(id, query),
                                        ),
                                    ],
                                ),
                            ),
                            Turn::End => self.session_end(id, session.example),
                            Turn::Failed(e) => (read, Err(e)),
                        }
                    },
                    _ => (self, Err(session_not_live())),
                },
            }
        }
    }

    /// The session driver reports.
    pub open spec fn repl_event(self, event: ReplEventView) -> (StateView, Outcome) {
        match event {
            ReplEventView::Spawn(spawn) => self.repl_event_spawn(spawn),
            ReplEventView::Query(_, _, result) => self.repl_event_query(result),
            ReplEventView::Kill(result) => self.repl_event_kill(result),
            ReplEventView::Read(id, byte) => self.repl_event_read(id, byte),
            ReplEventView::Error(message) => (self, Err(driver_failed(message))),
        }
    }

    /// An evaluation was started, or could not be.
    pub open spec fn expression_event_spawn(self, result: Result<ExampleIdView, Seq<char>>) -> (
        StateView,
        Outcome,
    ) {
        match result {
            Err(message) => (self, Err(driver_failed(message))),
            Ok(id) => if !self.examples.contains_key(id) {
                (self, Err(session_not_found(id)))
            } else {
                match self.examples[id] {
                    ExampleStateView::Repl(_) => (self, Err(expected_expression())),
                    ExampleStateView::Expression(_) => (
                        self.with_example(
                            id,
                            ExampleStateView::Expression(ExpressionExampleState::Spawned),
                        ),
                        Ok(seq![]),
                    ),
                }
            },
        }
    }

    /// An evaluation has ended, or could not be waited for. One that exited
    /// with another status than zero fails the run, with what it wrote to
    /// its standard error; else the example is settled and reported as
    /// passed.
    pub open spec fn expression_event_output(
        self,
        result: Result<(ExampleIdView, ExpressionOutputView), Seq<char>>,
    ) -> (StateView, Outcome) {
        match result {
            Err(message) => (self, Err(driver_failed(message))),
            Ok((id, output)) => if !output.success {
                (self, Err(expression_failed(id, utf8_lossy(output.stderr))))
            } else if !self.examples.contains_key(id) {
                (self, Err(session_not_found(id)))
            } else {
                (
                    StateView {
                        examples: self.examples.remove(id),
                        ..self
                    }.with_line_pending(),
                    Ok(seq![OutputEventView::Eprintln(pass_line(id))]),
                )
            },
        }
    }

    /// The evaluator reports.
    pub open spec fn expression_event(self, event: ExpressionEventView) -> (StateView, Outcome) {
        match event {
            ExpressionEventView::Spawn(result) => self.expression_event_spawn(result),
            ExpressionEventView::Output(result) => self.expression_event_output(result),
        }
    }

    /// One report line has been written out. With none outstanding, that is
    /// an error.
    pub open spec fn eprintlned(self) -> (StateView, Outcome) {
        if self.pending_eprintlns > 0 {
            (
                StateView { pending_eprintlns: (self.pending_eprintlns - 1) as nat, ..self },
                Ok(seq![]),
            )
        } else {
            (self, Err(unexpected_flush()))
        }
    }

    /// The raw result that the event brings to judgement, if it does.
    pub open spec fn judges(self, event: InputEventView) -> Option<Seq<u8>> {
        match event {
            InputEventView::ReplEvent(ReplEventView::Read(id, byte)) => {
                if self.examples.contains_key(id) {
                    match self.examples[id] {
                        ExampleStateView::Repl(session) => match session.state {
                            SessionView::Live(live) => judged(live.expecting, byte),
                            _ => None,
                        },
                        _ => None,
                    }
                } else {
                    None
                }
            },
            _ => None,
        }
    }

    /// What handling the event finds out of the functions that the reducer
    /// takes on trust. A result that it brings to judgement is sanitized:
    /// what it shows is text; had it been plain text, it would have been left
    /// as it is; and if it is text without an escape, it has lost its control
    /// characters and nothing else. The standard error of an evaluation that
    /// failed is shown: had it been well-formed, it would have been shown as
    /// the text it encodes.
    pub open spec fn learns(self, event: InputEventView) -> bool {
        &&& self.judges(event) matches Some(raw) ==> sanitizing_is_known(raw)
        &&& event matches InputEventView::ExpressionEvent(
            ExpressionEventView::Output(Ok((_, output))),
        ) ==> output.success || lossy_is_decoding(output.stderr)
    }

    /// What the event does by itself, before the run's completion is looked
    /// at.
    pub open spec fn handle(self, event: InputEventView) -> (StateView, Outcome) {
        match event {
            InputEventView::Example(example) => self.example(example),
            InputEventView::ReplEvent(event) => self.repl_event(event),
            InputEventView::ExpressionEvent(event) => self.expression_event(event),
            InputEventView::Eprintlned => self.eprintlned(),
        }
    }

    /// This state with the outcome's error recorded, unless an earlier one
    /// stands: the first error stays.
    pub open spec fn record(self, outcome: Outcome) -> StateView {
        match outcome {
            Err(e) if self.error is None => StateView { error: Some(e), ..self },
            _ => self,
        }
    }

    /// Whether every report line handed out has been written.
    pub open spec fn flushed(self) -> bool {
        self.pending_eprintlns == 0
    }

    /// Whether no example is left.
    pub open spec fn settled(self) -> bool {
        self.examples.dom() =~= Set::<ExampleIdView>::empty()
    }

    /// What is put out after an event: once every report line is written,
    /// the end of the run, failed if there was an error, passed if there was
    /// none and no example is left; else what the event's handling put out.
    pub open spec fn report(self, outcome: Outcome) -> Seq<OutputEventView> {
        if self.flushed() && self.error is Some {
            seq![OutputEventView::Done(Err(self.error->0))]
        } else if self.flushed() && self.settled() {
            seq![OutputEventView::Done(Ok(()))]
        } else {
            match outcome {
                Ok(outputs) => outputs,
                Err(_) => seq![],
            }
        }
    }

    /// The reducer: the state after `event`, and what is put out.
    pub open spec fn event(self, event: InputEventView) -> (StateView, Seq<OutputEventView>) {
        let (handled, outcome) = self.handle(event);
        let next = handled.record(outcome);
        (next, next.report(outcome))
    }
}

/// The state after a sequence of events, and everything that was put out on
/// the way, in order.
pub open spec fn run(state: StateView, events: Seq<InputEventView>) -> (
    StateView,
    Seq<OutputEventView>,
)
    decreases events.len(),
{
    if events.len() == 0 {
        (state, Seq::empty())
    } else {
        let (next, first) = state.event(events[0]);
        let (last, rest) = run(next, events.drop_first());
        (last, first + rest)
    }
}

/// The events that hand in `examples`, in order.
pub open spec fn registrations(examples: Seq<ExampleView>) -> Seq<InputEventView> {
    examples.map_values(|example: ExampleView| InputEventView::Example(example))
}

/// The outcome that a reducer function's result stands for.
pub open spec fn outcome_view(r: Result<Vec<OutputEvent>, RunError>) -> Outcome {
    match r {
        Ok(outputs) => Ok(outputs_view(outputs@)),
        Err(e) => Err(e@),
    }
}

/// The state of a run: the examples that are registered and not yet
/// settled, the number of report lines handed out and not yet written, and
/// the first error.
#[derive(Debug)]
pub struct State {
    examples: ExamplesState,
    pending_eprintlns: usize,
    error: Option<RunError>,
}

impl View for State {
    type V = StateView;

    closed spec fn view(&self) -> StateView {
        StateView {
            examples: self.examples@,
            pending_eprintlns: self.pending_eprintlns as nat,
            error: match self.error {
                Some(e) => Some(e@),
                None => None,
            },
        }
    }
}

impl Default for State {
    fn default() -> (state: Self)
        ensures
            state@ == StateView::initial(),
    {
        State::new()
    }
}

/// No outputs.
fn nothing() -> (outputs: Vec<OutputEvent>)
    ensures
        outputs_view(outputs@) == Seq::<OutputEventView>::empty(),
{
    let outputs: Vec<OutputEvent> = Vec::new();
    proof {
        assert(outputs_view(outputs@) =~= Seq::<OutputEventView>::empty());
    }
    outputs
}

/// One output.
fn one(output: OutputEvent) -> (outputs: Vec<OutputEvent>)
    ensures
        outputs_view(outputs@) == seq![output@],
{
    let mut outputs: Vec<OutputEvent> = Vec::new();
    outputs.push(output);
    proof {
        assert(outputs_view(outputs@) =~= seq![output@]);
    }
    outputs
}

impl State {
    /// The state in which a run begins.
    pub fn new() -> (state: Self)
        ensures
            state@ == StateView::initial(),
    {
        State { examples: ExamplesState::new(), pending_eprintlns: 0, error: None }
    }

    /// Begins a run on `examples`: hands them in, in order, and says what is
    /// to be done first. A run on no example fails at once, and nothing is
    /// asked of any driver.
    #[verifier::rlimit(40)]
    pub fn start(examples: Vec<Example>) -> (r: Result<(State, Vec<OutputEvent>), RunError>)
        ensures
            r is Err <==> examples.len() == 0,
            r matches Err(e) ==> e@ == no_examples(),
            r matches Ok((state, outputs)) ==> (state@, outputs_view(outputs@)) == run(
                StateView::initial(),
                registrations(examples_view(examples@)),
            ),
    {
        if examples.len() == 0 {
            return Err(RunError::no_examples());
        }
        let mut state = State::new();
        let mut outputs: Vec<OutputEvent> = Vec::new();
        let mut i: usize = 0;
        let ghost events = registrations(examples_view(examples@));
        proof {
            assert(events.skip(0) =~= events);
            assert(outputs_view(outputs@) =~= Seq::<OutputEventView>::empty());
            assert(Seq::<OutputEventView>::empty() + run(state@, events).1 =~= run(
                state@,
                events,
            ).1);
        }
        while i < examples.len()
            invariant
                i <= examples.len(),
                events == registrations(examples_view(examples@)),
                state@.pending_eprintlns == 0,
                run(StateView::initial(), events) == (
                    run(state@, events.skip(i as int)).0,
                    outputs_view(outputs@) + run(state@, events.skip(i as int)).1,
                ),
            decreases examples.len() - i,
        {
            let ghost left = events.skip(i as int);
            let mut more = state.event(InputEvent::Example(examples[i].clone()));
            proof {
                assert(left[0] == InputEventView::Example(examples@[i as int]@));
                assert(left.drop_first() =~= events.skip(i + 1));
                let rest = run(state@, events.skip(i + 1)).1;
                assert(outputs_view(outputs@ + more@) =~= outputs_view(outputs@) + outputs_view(
                    more@,
                ));
                assert(outputs_view(outputs@) + (outputs_view(more@) + rest) =~= (outputs_view(
                    outputs@,
                ) + outputs_view(more@)) + rest);
            }
            outputs.append(&mut more);
            i += 1;
        }
        proof {
            assert(events.skip(examples.len() as int) =~= Seq::<InputEventView>::empty());
            assert(outputs_view(outputs@) + Seq::<OutputEventView>::empty() =~= outputs_view(
                outputs@,
            ));
        }
        Ok((state, outputs))
    }

    /// The examples that are registered and not yet settled.
    pub fn examples(&self) -> (examples: &ExamplesState)
        ensures
            examples@ == self@.examples,
    {
        &self.examples
    }

    /// The number of report lines handed out and not yet written.
    pub fn pending_eprintlns(&self) -> (n: usize)
        ensures
            n == self@.pending_eprintlns,
    {
        self.pending_eprintlns
    }

    /// The first error of the run, if there was one.
    pub fn error(&self) -> (error: &Option<RunError>)
        ensures
            error is Some <==> self@.error is Some,
            error matches Some(e) ==> self@.error == Some(e@),
    {
        &self.error
    }

    /// The reducer: handles `event`, records the error if it is the run's
    /// first, and says what is to be done next. Once every report line is
    /// written, that is the end of the run: failed if there was an error,
    /// passed if there was none and no example is left.
    #[verifier::rlimit(40)]
    pub fn event(&mut self, event: InputEvent) -> (outputs: Vec<OutputEvent>)
        requires
            old(self)@.pending_eprintlns < usize::MAX,
        ensures
            (final(self)@, outputs_view(outputs@)) == old(self)@.event(event@),
            old(self)@.learns(event@),
    {
        let outcome = match event {
            InputEvent::Example(example) => self.example(example),
            InputEvent::ReplEvent(repl_event) => self.repl_event(repl_event),
            InputEvent::ExpressionEvent(expression_event) => self.expression_event(
                expression_event,
            ),
            InputEvent::Eprintlned => self.eprintlned(),
        };
        let ghost handled = self@;
        let ghost result = outcome_view(outcome);
        assert((handled, result) == old(self)@.handle(event@));
        let output = match outcome {
            Ok(output) => output,
            Err(error) => {
                if self.error.is_none() {
                    self.error = Some(error);
                }
                nothing()
            },
        };
        assert(self@ == handled.record(result));
        if self.pending_eprintlns == 0 {
            if let Some(error) = &self.error {
                return one(OutputEvent::Done(Err(error.clone())));
            }
            if self.examples.is_empty() {
                return one(OutputEvent::Done(Ok(())));
            }
        }
        output
    }

    /// Feeds a stretch of bytes that the interpreter of example `id` wrote to
    /// the reducer, byte by byte, and gathers what is put out.
    ///
    /// If the session of an example is live and has just started, and the
    /// bytes are what an interpreter writes that prints the expected results,
    /// whatever plain text they are, the example passes: every query is sent
    /// in order, then the interpreter's release is asked for and the pass is
    /// reported, once.
    #[verifier::rlimit(40)]
    pub fn feed(&mut self, id: &ExampleId, bytes: &[u8]) -> (outputs: Vec<OutputEvent>)
        requires
            old(self)@.pending_eprintlns + bytes@.len() < usize::MAX,
        ensures
            (final(self)@, outputs_view(outputs@)) == run(old(self)@, reads(id@, bytes@)),
            learned_along(old(self)@, reads(id@, bytes@)),
            forall|example: ReplExampleView, line_feed: bool|
                old(self)@.error is None && session_at(
                    old(self)@,
                    id@,
                    example,
                    live_start(example.entries),
                ) && all_plainly_written(example.entries, line_feed) && bytes@
                    == #[trigger] mirrored_stream(example.entries, line_feed) ==> final(self)@
                    == with_passed(old(self)@, id@, example) && outputs_view(outputs@) == queries(
                    id@,
                    example.entries,
                ) + passed(id@),
    {
        let ghost events = reads(id@, bytes@);
        let mut outputs: Vec<OutputEvent> = Vec::new();
        let mut i: usize = 0;
        proof {
            assert(events.take(0) =~= Seq::<InputEventView>::empty());
            assert(outputs_view(outputs@) =~= Seq::<OutputEventView>::empty());
        }
        while i < bytes.len()
            invariant
                i <= bytes.len(),
                events == reads(id@, bytes@),
                old(self)@.pending_eprintlns + bytes@.len() < usize::MAX,
                self@.pending_eprintlns <= old(self)@.pending_eprintlns + i,
                run(old(self)@, events.take(i as int)) == (self@, outputs_view(outputs@)),
                learned_along(old(self)@, events.take(i as int)),
            decreases bytes.len() - i,
        {
            let ghost before = self@;
            let ghost event = read(id@, bytes@[i as int]);
            let byte_read = InputEvent::ReplEvent(ReplEvent::Read(id.clone(), bytes[i]));
            assert(byte_read@ == event);
            let mut more = self.event(byte_read);
            proof {
                let one = seq![event];
                assert(events[i as int] == event);
                assert(events.take(i + 1) =~= events.take(i as int) + one);
                assert(one[0] == event);
                assert(one.drop_first() =~= Seq::<InputEventView>::empty());
                assert(run(self@, one.drop_first()) == (self@, Seq::<OutputEventView>::empty()));
                assert(learned_along(self@, one.drop_first()));
                assert(run(before, one) == (self@, outputs_view(more@) + Seq::<
                    OutputEventView,
                >::empty()));
                assert(outputs_view(more@) + Seq::<OutputEventView>::empty() =~= outputs_view(
                    more@,
                ));
                assert(learned_along(before, one));
                lemma_run_concat(old(self)@, events.take(i as int), one);
                lemma_learned_concat(old(self)@, events.take(i as int), one);
                lemma_event_adds_at_most_one_line(before, event);
                assert(outputs_view(outputs@ + more@) =~= outputs_view(outputs@) + outputs_view(
                    more@,
                ));
            }
            outputs.append(&mut more);
            i += 1;
        }
        proof {
            assert(events.take(bytes.len() as int) =~= events);
            assert forall|example: ReplExampleView, line_feed: bool|
                old(self)@.error is None && session_at(
                    old(self)@,
                    id@,
                    example,
                    live_start(example.entries),
                ) && all_plainly_written(example.entries, line_feed) && bytes@
                    == #[trigger] mirrored_stream(example.entries, line_feed) implies self@
                == with_passed(old(self)@, id@, example) && outputs_view(outputs@) == queries(
                id@,
                example.entries,
            ) + passed(id@) by {
                lemma_printed_session_passes(old(self)@, id@, example, line_feed);
            }
        }
        outputs
    }

    /// Registers an example and asks for its interpreter or its evaluation.
    pub fn example(&mut self, example: Example) -> (r: Result<Vec<OutputEvent>, RunError>)
        ensures
            (final(self)@, outcome_view(r)) == old(self)@.example(example@),
    {
        let (id, example_state, event) = match example {
            Example::Repl(example) => {
                let example_id = example.id.clone();
                let event = OutputEvent::ReplCommand(ReplCommand::Spawn(example_id.clone()));
                let example_state = ExampleState::Repl(ReplExampleState::new(example));
                (example_id, example_state, event)
            },
            Example::Expression(example) => {
                let example_id = example.id.clone();
                let example_state = ExampleState::Expression(ExpressionExampleState::Pending);
                let event = OutputEvent::ExpressionCommand(EvaluateExpression(example));
                (example_id, example_state, event)
            },
        };
        match self.examples.insert(id, example_state) {
            Ok(()) => Ok(one(event)),
            Err(e) => Err(e),
        }
    }

    /// Handles a report of the session driver.
    pub fn repl_event(&mut self, repl_event: ReplEvent) -> (r: Result<Vec<OutputEvent>, RunError>)
        requires
            old(self)@.pending_eprintlns < usize::MAX,
        ensures
            (final(self)@, outcome_view(r)) == old(self)@.repl_event(repl_event@),
            old(self)@.learns(InputEventView::ReplEvent(repl_event@)),
    {
        match repl_event {
            ReplEvent::Spawn(spawn) => self.repl_event_spawn(spawn),
            ReplEvent::Query(id, query, result) => self.repl_event_query(id, query, result),
            ReplEvent::Kill(id) => self.repl_event_kill(id),
            ReplEvent::Read(id, byte) => self.repl_event_read(id, byte),
            ReplEvent::Error(message) => Err(RunError::driver_failed(message)),
        }
    }

    /// Makes the session of a started interpreter live.
    #[verifier::rlimit(40)]
    pub fn repl_event_spawn(&mut self, spawn: Result<ExampleId, String>) -> (r: Result<
        Vec<OutputEvent>,
        RunError,
    >)
        ensures
            (final(self)@, outcome_view(r)) == old(self)@.repl_event_spawn(
                match spawn {
                    Ok(id) => Ok(id@),
                    Err(message) => Err(message@),
                },
            ),
    {
        let id = match spawn {
            Ok(id) => id,
            Err(message) => {
                return Err(RunError::driver_failed(message));
            },
        };
        let session = match self.examples.take_repl(&id) {
            Ok(session) => session,
            Err(e) => {
                return Err(e);
            },
        };
        let ReplExampleState { example, state } = session;
        if let ReplSessionState::Live(_) = &state {
            let error = RunError::already_live(&id);
            self.put_session(id, example, state);
            proof {
                assert(old(self)@.examples.remove(id@).insert(id@, old(self)@.examples[id@])
                    =~= old(self)@.examples);
            }
            return Err(error);
        }
        let session_live = ReplSessionLive::new(example.entries.clone());
        self.put_session(id, example, ReplSessionState::Live(session_live));
        proof {
            let live = ExampleStateView::Repl(
                ReplStateView {
                    example: example@,
                    state: SessionView::Live(live_start(example@.entries)),
                },
            );
            assert(old(self)@.examples.remove(id@).insert(id@, live) =~= old(self)@.examples.insert(
                id@,
                live,
            ));
        }
        Ok(nothing())
    }

    /// Takes note that a query was written, or could not be.
    pub fn repl_event_query(
        &self,
        _id: ExampleId,
        _query: ReplQuery,
        result: Result<(), String>,
    ) -> (r: Result<Vec<OutputEvent>, RunError>)
        ensures
            (self@, outcome_view(r)) == self@.repl_event_query(
                match result {
                    Ok(()) => Ok(()),
                    Err(message) => Err(message@),
                },
            ),
    {
        match result {
            Ok(()) => Ok(nothing()),
            Err(message) => Err(RunError::driver_failed(message)),
        }
    }

    /// Settles the example of a released interpreter.
    pub fn repl_event_kill(&mut self, result: Result<ExampleId, String>) -> (r: Result<
        Vec<OutputEvent>,
        RunError,
    >)
        ensures
            (final(self)@, outcome_view(r)) == old(self)@.repl_event_kill(
                match result {
                    Ok(id) => Ok(id@),
                    Err(message) => Err(message@),
                },
            ),
    {
        let id = match result {
            Ok(id) => id,
            Err(message) => {
                return Err(RunError::driver_failed(message));
            },
        };
        match self.examples.remove(&id) {
            Ok(_) => Ok(nothing()),
            Err(e) => Err(e),
        }
    }

    /// Feeds a byte that an interpreter wrote to its session, and acts on
    /// what it leads to: the next query, the session's end, or the failure
    /// of the run.
    #[verifier::rlimit(40)]
    pub fn repl_event_read(&mut self, id: ExampleId, ch: u8) -> (r: Result<
        Vec<OutputEvent>,
        RunError,
    >)
        requires
            old(self)@.pending_eprintlns < usize::MAX,
        ensures
            (final(self)@, outcome_view(r)) == old(self)@.repl_event_read(id@, ch),
            old(self)@.learns(InputEventView::ReplEvent(ReplEventView::Read(id@, ch))),
    {
        let session = match self.examples.take_repl(&id) {
            Ok(session) => session,
            Err(e) => {
                return Err(e);
            },
        };
        let ReplExampleState { example, state } = session;
        let session_live = match state {
            ReplSessionState::Live(session_live) => session_live,
            state => {
                self.put_session(id, example, state);
                proof {
                    assert(old(self)@.examples.remove(id@).insert(id@, old(self)@.examples[id@])
                        =~= old(self)@.examples);
                }
                return Err(RunError::session_not_live());
            },
        };
        let (session_live, turn) = session_live.read(&id, ch);
        let ghost read = ExampleStateView::Repl(
            ReplStateView { example: example@, state: SessionView::Live(session_live@) },
        );
        proof {
            assert(old(self)@.examples.remove(id@).insert(id@, read) =~= old(self)@.examples.insert(
                id@,
                read,
            ));
        }
        match turn {
            SessionTurn::Waiting => {
                let state = ReplSessionState::Live(session_live);
                self.put_session(id, example, state);
                Ok(nothing())
            },
            SessionTurn::Query(query) => {
                let state = ReplSessionState::Live(session_live);
                let command = OutputEvent::ReplCommand(ReplCommand::Query(id.clone(), query));
                self.put_session(id, example, state);
                Ok(one(command))
            },
            SessionTurn::End => {
                proof {
                    let killing = ExampleStateView::Repl(
                        ReplStateView { example: example@, state: SessionView::Killing },
                    );
                    assert(old(self)@.examples.remove(id@).insert(id@, killing) =~= old(
                        self,
                    )@.examples.insert(id@, killing));
                }
                self.session_end(id, example)
            },
            SessionTurn::Failed(e) => {
                let state = ReplSessionState::Live(session_live);
                self.put_session(id, example, state);
                Err(e)
            },
        }
    }

    /// Registers the session of `example` under `id`, as it stands now.
    fn put_session(&mut self, id: ExampleId, example: ReplExample, state: ReplSessionState)
        ensures
            final(self)@ == old(self)@.with_session(id@, example@, state@),
    {
        let _ = self.examples.insert(id, ExampleState::Repl(ReplExampleState { example, state }));
    }

    /// Ends the session of `example`: asks for the release of its
    /// interpreter and reports the example as passed.
    pub fn session_end(&mut self, id: ExampleId, example: ReplExample) -> (r: Result<
        Vec<OutputEvent>,
        RunError,
    >)
        requires
            old(self)@.pending_eprintlns < usize::MAX,
        ensures
            final(self)@ == (StateView {
                examples: old(self)@.examples.insert(
                    id@,
                    ExampleStateView::Repl(
                        ReplStateView { example: example@, state: SessionView::Killing },
                    ),
                ),
                pending_eprintlns: old(self)@.pending_eprintlns + 1,
                error: old(self)@.error,
            }),
            outcome_view(r) == Ok::<Seq<OutputEventView>, RunErrorView>(
                seq![
                    OutputEventView::ReplCommand(ReplCommandView::Kill(id@)),
                    OutputEventView::Eprintln(pass_line(id@)),
                ],
            ),
    {
        let kill = OutputEvent::ReplCommand(ReplCommand::Kill(id.clone()));
        let line = self.eprintln(Self::fmt_pass(&id));
        let state = ReplSessionState::Killing;
        self.put_session(id, example, state);
        let mut outputs: Vec<OutputEvent> = Vec::new();
        outputs.push(kill);
        outputs.push(line);
        proof {
            assert(outputs_view(outputs@) =~= seq![kill@, line@]);
        }
        Ok(outputs)
    }

    /// The report line of an example that has passed.
    pub fn fmt_pass(id: &ExampleId) -> (line: String)
        ensures
            line@ == pass_line(id@),
    {
        let mut line = String::from_str("PASS: ");
        line.append(id.to_string().as_str());
        line
    }

    /// Hands out a report line, and counts it as outstanding.
    fn eprintln(&mut self, line: String) -> (output: OutputEvent)
        requires
            old(self)@.pending_eprintlns < usize::MAX,
        ensures
            final(self)@ == old(self)@.with_line_pending(),
            output@ == OutputEventView::Eprintln(line@),
    {
        self.pending_eprintlns = self.pending_eprintlns + 1;
        OutputEvent::Eprintln(line)
    }

    /// Settles an expression whose evaluation has ended: a failure of the
    /// run if it exited with another status than zero, a pass if with zero.
    pub fn expression_event_output(
        &mut self,
        expression_output: Result<(ExampleId, ExpressionOutput), String>,
    ) -> (r: Result<Vec<OutputEvent>, RunError>)
        requires
            old(self)@.pending_eprintlns < usize::MAX,
        ensures
            (final(self)@, outcome_view(r)) == old(self)@.expression_event_output(
                match expression_output {
                    Ok((id, output)) => Ok((id@, output@)),
                    Err(message) => Err(message@),
                },
            ),
            expression_output matches Ok((_, output)) ==> output.success || lossy_is_decoding(
                output.stderr@,
            ),
    {
        let (example_id, expression_output) = match expression_output {
            Ok(pair) => pair,
            Err(message) => {
                return Err(RunError::driver_failed(message));
            },
        };
        if !expression_output.success {
            let stderr = string_from_utf8_lossy(expression_output.stderr.as_slice());
            return Err(RunError::expression_failed(&example_id, stderr.as_str()));
        }
        match self.examples.remove(&example_id) {
            Ok(_) => {},
            Err(e) => {
                return Err(e);
            },
        }
        let line = self.eprintln(Self::fmt_pass(&example_id));
        Ok(one(line))
    }

    /// Handles a report of the evaluator.
    pub fn expression_event(&mut self, expression_event: ExpressionEvent) -> (r: Result<
        Vec<OutputEvent>,
        RunError,
    >)
        requires
            old(self)@.pending_eprintlns < usize::MAX,
        ensures
            (final(self)@, outcome_view(r)) == old(self)@.expression_event(expression_event@),
            old(self)@.learns(InputEventView::ExpressionEvent(expression_event@)),
    {
        match expression_event {
            ExpressionEvent::Spawn(result) => self.expression_event_spawn(result),
            ExpressionEvent::Output(result) => self.expression_event_output(result),
        }
    }

    /// Takes note that an evaluation was started.
    pub fn expression_event_spawn(&mut self, result: Result<ExampleId, String>) -> (r: Result<
        Vec<OutputEvent>,
        RunError,
    >)
        ensures
            (final(self)@, outcome_view(r)) == old(self)@.expression_event_spawn(
                match result {
                    Ok(id) => Ok(id@),
                    Err(message) => Err(message@),
                },
            ),
    {
        let example_id = match result {
            Ok(id) => id,
            Err(message) => {
                return Err(RunError::driver_failed(message));
            },
        };
        match self.examples.take_expression(&example_id) {
            Ok(_) => {},
            Err(e) => {
                return Err(e);
            },
        }
        let spawned = ExampleState::Expression(ExpressionExampleState::Spawned);
        proof {
            assert(old(self)@.examples.remove(example_id@).insert(example_id@, spawned@) =~= old(
                self,
            )@.examples.insert(example_id@, spawned@));
        }
        let _ = self.examples.insert(example_id, spawned);
        Ok(nothing())
    }

    /// Takes note that one report line has been written out.
    pub fn eprintlned(&mut self) -> (r: Result<Vec<OutputEvent>, RunError>)
        ensures
            (final(self)@, outcome_view(r)) == old(self)@.eprintlned(),
    {
        if self.pending_eprintlns > 0 {
            self.pending_eprintlns = self.pending_eprintlns - 1;
            Ok(nothing())
        } else {
            Err(RunError::unexpected_flush())
        }
    }
}

} // verus!
