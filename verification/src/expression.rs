//! Expression examples: a text that the interpreter evaluates in one go, and
//! what passes between the reducer and the evaluator.

use crate::example_id::{ExampleId, ExampleIdView};
use vstd::prelude::*;
use vstd::string::*;

verus! {

/// An expression example as a mathematical value.
pub struct ExpressionExampleView {
    pub id: ExampleIdView,
    pub expression: Seq<char>,
}

/// An expression example: its identity and the expression's source text,
/// which may span lines.
#[derive(Debug, PartialEq, Eq)]
pub struct ExpressionExample {
    pub id: ExampleId,
    pub expression: String,
}

impl View for ExpressionExample {
    type V = ExpressionExampleView;

    open spec fn view(&self) -> ExpressionExampleView {
        ExpressionExampleView { id: self.id@, expression: self.expression@ }
    }
}

impl Clone for ExpressionExample {
    fn clone(&self) -> (copy: Self)
        ensures
            copy@ == self@,
    {
        ExpressionExample { id: self.id.clone(), expression: self.expression.clone() }
    }
}

impl ExpressionExample {
    /// The expression example with this identity and this source text.
    pub fn new(id: ExampleId, expression: String) -> (example: Self)
        ensures
            example@ == (ExpressionExampleView { id: id@, expression: expression@ }),
    {
        Self { id, expression }
    }
}

/// The command to the evaluator: evaluate this example's expression.
#[derive(Debug, PartialEq, Eq)]
pub struct EvaluateExpression(pub ExpressionExample);

impl View for EvaluateExpression {
    type V = ExpressionExampleView;

    open spec fn view(&self) -> ExpressionExampleView {
        self.0@
    }
}

/// What an evaluation left behind, as a mathematical value.
pub struct ExpressionOutputView {
    pub success: bool,
    pub stdout: Seq<u8>,
    pub stderr: Seq<u8>,
}

/// What an evaluation left behind: whether it exited with status zero, and
/// what it wrote to its standard output and standard error.
#[derive(Debug, PartialEq, Eq)]
pub struct ExpressionOutput {
    pub success: bool,
    pub stdout: Vec<u8>,
    pub stderr: Vec<u8>,
}

impl View for ExpressionOutput {
    type V = ExpressionOutputView;

    open spec fn view(&self) -> ExpressionOutputView {
        ExpressionOutputView { success: self.success, stdout: self.stdout@, stderr: self.stderr@ }
    }
}

/// An event of the evaluator, as a mathematical value. A failure is the
/// evaluator's message.
pub enum ExpressionEventView {
    Spawn(Result<ExampleIdView, Seq<char>>),
    Output(Result<(ExampleIdView, ExpressionOutputView), Seq<char>>),
}

/// What the evaluator reports. A failure carries the evaluator's message.
#[derive(Debug, PartialEq, Eq)]
pub enum ExpressionEvent {
    /// The evaluation of the example was started, or could not be.
    Spawn(Result<ExampleId, String>),
    /// The evaluation of the example has ended, or could not be waited for.
    Output(Result<(ExampleId, ExpressionOutput), String>),
}

impl View for ExpressionEvent {
    type V = ExpressionEventView;

    open spec fn view(&self) -> ExpressionEventView {
        match self {
            ExpressionEvent::Spawn(Ok(id)) => ExpressionEventView::Spawn(Ok(id@)),
            ExpressionEvent::Spawn(Err(message)) => ExpressionEventView::Spawn(Err(message@)),
            ExpressionEvent::Output(Ok((id, output))) => ExpressionEventView::Output(
                Ok((id@, output@)),
            ),
            ExpressionEvent::Output(Err(message)) => ExpressionEventView::Output(Err(message@)),
        }
    }
}

/// The state of an expression example: its evaluation is asked for, or
/// runs.
#[derive(Debug, Clone, Copy, PartialEq, Eq, Structural)]
pub enum ExpressionExampleState {
    Pending,
    Spawned,
}

/// The examples that a sequence of identities stands for.
pub open spec fn ids_view(ids: Seq<ExampleId>) -> Seq<ExampleIdView> {
    ids.map_values(|id: ExampleId| id@)
}

/// `running` without the first evaluation of `id`, if there is one.
pub open spec fn without_first(running: Seq<ExampleIdView>, id: ExampleIdView) -> Seq<
    ExampleIdView,
>
    decreases running.len(),
{
    if running.len() == 0 {
        running
    } else if running[0] == id {
        running.drop_first()
    } else {
        seq![running[0]] + without_first(running.drop_first(), id)
    }
}

/// The bookkeeping of the evaluator: the examples whose evaluation runs, in
/// the order in which they were started. The processes themselves are the
/// program's.
#[derive(Debug)]
pub struct ExpressionDriver {
    running: Vec<ExampleId>,
}

impl View for ExpressionDriver {
    type V = Seq<ExampleIdView>;

    closed spec fn view(&self) -> Seq<ExampleIdView> {
        ids_view(self.running@)
    }
}

impl ExpressionDriver {
    /// An evaluator without evaluations.
    pub fn new() -> (driver: Self)
        ensures
            driver@ == Seq::<ExampleIdView>::empty(),
    {
        let driver = ExpressionDriver { running: Vec::new() };
        proof {
            assert(ids_view(driver.running@) =~= Seq::<ExampleIdView>::empty());
        }
        driver
    }

    /// The examples whose evaluation runs.
    pub fn running(&self) -> (running: &Vec<ExampleId>)
        ensures
            ids_view(running@) == self@,
    {
        &self.running
    }

    /// Takes an evaluation on: hands back the expression that is to be
    /// evaluated in a process of its own, and the event to report at once,
    /// before the process has ended.
    pub fn spawn_nix(&mut self, example: ExpressionExample) -> (r: (String, ExpressionEvent))
        ensures
            final(self)@ == old(self)@.push(example@.id),
            r.0@ == example@.expression,
            r.1@ == ExpressionEventView::Spawn(Ok(example@.id)),
    {
        let ExpressionExample { id, expression } = example;
        proof {
            assert(ids_view(self.running@.push(id)) =~= ids_view(self.running@).push(id@));
        }
        self.running.push(id.clone());
        (expression, ExpressionEvent::Spawn(Ok(id)))
    }

    /// Takes note that an evaluation of `id` has ended, or could not be
    /// waited for, and says what is to be reported.
    pub fn finished(&mut self, id: ExampleId, ended: Result<ExpressionOutput, String>) -> (event:
        ExpressionEvent)
        ensures
            final(self)@ == without_first(old(self)@, id@),
            event@ == ExpressionEventView::Output(
                match ended {
                    Ok(output) => Ok((id@, output@)),
                    Err(message) => Err(message@),
                },
            ),
    {
        let mut at: usize = 0;
        let ghost all = ids_view(self.running@);
        proof {
            assert(all.skip(0) =~= all);
            assert(all.take(0) + without_first(all, id@) =~= without_first(all, id@));
        }
        while at < self.running.len() && self.running[at] != id
            invariant
                at <= self.running.len(),
                all == ids_view(self.running@),
                without_first(all, id@) == all.take(at as int) + without_first(
                    all.skip(at as int),
                    id@,
                ),
            decreases self.running.len() - at,
        {
            proof {
                let rest = all.skip(at as int);
                assert(rest[0] == all[at as int]);
                assert(rest.drop_first() =~= all.skip(at + 1));
                assert(all.take(at as int) + (seq![rest[0]] + without_first(
                    rest.drop_first(),
                    id@,
                )) =~= all.take(at + 1) + without_first(rest.drop_first(), id@));
            }
            at += 1;
        }
        if at < self.running.len() {
            proof {
                let rest = all.skip(at as int);
                assert(rest[0] == all[at as int]);
                assert(all.take(at as int) + rest.drop_first() =~= all.remove(at as int));
                assert(ids_view(self.running@.remove(at as int)) =~= all.remove(at as int));
            }
            let _ = self.running.remove(at);
        } else {
            proof {
                assert(all.skip(at as int) =~= Seq::<ExampleIdView>::empty());
                assert(all.take(at as int) + Seq::<ExampleIdView>::empty() =~= all);
            }
        }
        match ended {
            Ok(output) => ExpressionEvent::Output(Ok((id, output))),
            Err(message) => ExpressionEvent::Output(Err(message)),
        }
    }
}

} // verus!
