//! What goes into the reducer and what comes out of it.

use crate::error::{RunError, RunErrorView};
use crate::examples::{Example, ExampleView};
use crate::expression::{
    EvaluateExpression, ExpressionEvent, ExpressionEventView, ExpressionExampleView,
};
use crate::repl::driver::{ReplCommand, ReplCommandView, ReplEvent, ReplEventView};
use vstd::prelude::*;

verus! {

/// An input of the reducer as a mathematical value.
pub enum InputEventView {
    Example(ExampleView),
    ReplEvent(ReplEventView),
    ExpressionEvent(ExpressionEventView),
    Eprintlned,
}

/// An input of the reducer.
#[derive(Debug, PartialEq, Eq)]
pub enum InputEvent {
    /// An example is handed in.
    Example(Example),
    /// The session driver reports.
    ReplEvent(ReplEvent),
    /// The evaluator reports.
    ExpressionEvent(ExpressionEvent),
    /// One report line has been written out.
    Eprintlned,
}

impl View for InputEvent {
    type V = InputEventView;

    open spec fn view(&self) -> InputEventView {
        match self {
            InputEvent::Example(example) => InputEventView::Example(example@),
            InputEvent::ReplEvent(event) => InputEventView::ReplEvent(event@),
            InputEvent::ExpressionEvent(event) => InputEventView::ExpressionEvent(event@),
            InputEvent::Eprintlned => InputEventView::Eprintlned,
        }
    }
}

/// An output of the reducer as a mathematical value.
pub enum OutputEventView {
    Done(Result<(), RunErrorView>),
    ReplCommand(ReplCommandView),
    ExpressionCommand(ExpressionExampleView),
    Eprintln(Seq<char>),
}

/// An output of the reducer.
#[derive(Debug, PartialEq, Eq)]
pub enum OutputEvent {
    /// The run is over, with this result.
    Done(Result<(), RunError>),
    /// A command for the session driver.
    ReplCommand(ReplCommand),
    /// A command for the evaluator.
    ExpressionCommand(EvaluateExpression),
    /// A line for the report.
    Eprintln(String),
}

impl View for OutputEvent {
    type V = OutputEventView;

    open spec fn view(&self) -> OutputEventView {
        match self {
            OutputEvent::Done(Ok(())) => OutputEventView::Done(Ok(())),
            OutputEvent::Done(Err(e)) => OutputEventView::Done(Err(e@)),
            OutputEvent::ReplCommand(command) => OutputEventView::ReplCommand(command@),
            OutputEvent::ExpressionCommand(command) => OutputEventView::ExpressionCommand(command@),
            OutputEvent::Eprintln(line) => OutputEventView::Eprintln(line@),
        }
    }
}

/// The outputs that a sequence of output events stands for.
pub open spec fn outputs_view(outputs: Seq<OutputEvent>) -> Seq<OutputEventView> {
    outputs.map_values(|output: OutputEvent| output@)
}

} // verus!
