//! The one error type of a run: what kind of failure it is, and the message
//! the user is shown.

use crate::example_id::{ExampleId, ExampleIdView};
use crate::text::{debug_quoted, string_debug};
use vstd::prelude::*;
use vstd::string::*;

verus! {

/// The kinds of failure. Each of them ends the run.
#[derive(Debug, Clone, Copy, PartialEq, Eq, Structural)]
pub enum ErrorKind {
    /// No example was found in the documents.
    NoExamples,
    /// A text that should be one line is not.
    Line,
    /// An example's text is malformed.
    Parse,
    /// An example was registered under an identity that is taken.
    DuplicateId,
    /// An event names an example that is not registered.
    SessionNotFound,
    /// An event for one kind of example names an example of the other kind.
    WrongKind,
    /// An event that needs a live session names one that is not live.
    NotLive,
    /// A session that is live was reported as spawned.
    AlreadyLive,
    /// The interpreter printed something else than the example expects.
    ResultMismatch,
    /// An expression's evaluation failed.
    ExpressionFailed,
    /// A driver reported a failure of the system: a process that did not
    /// start, a stream that broke.
    Driver,
    /// A report line was acknowledged though none was outstanding.
    UnexpectedFlush,
}

/// An error as a mathematical value.
pub struct RunErrorView {
    pub kind: ErrorKind,
    pub message: Seq<char>,
}

/// An error of a run.
#[derive(Debug, PartialEq, Eq)]
pub struct RunError {
    pub kind: ErrorKind,
    pub message: String,
}

impl View for RunError {
    type V = RunErrorView;

    open spec fn view(&self) -> RunErrorView {
        RunErrorView { kind: self.kind, message: self.message@ }
    }
}

impl Clone for RunError {
    fn clone(&self) -> (copy: Self)
        ensures
            copy@ == self@,
    {
        RunError { kind: self.kind, message: self.message.clone() }
    }
}

/// What is said when the documents hold no example.
pub open spec fn no_examples() -> RunErrorView {
    RunErrorView { kind: ErrorKind::NoExamples, message: "could not find any examples"@ }
}

/// What is said when the documents hold no interactive example.
pub open spec fn no_repl_examples() -> RunErrorView {
    RunErrorView { kind: ErrorKind::NoExamples, message: "could not find any REPL examples"@ }
}

/// A line's text as error messages quote it.
pub open spec fn quoted_line(text: Seq<char>) -> Seq<char> {
    "LFLine("@ + debug_quoted(text) + ")"@
}

/// Said of a text that does not end with a line feed.
pub open spec fn line_without_end(text: Seq<char>) -> RunErrorView {
    RunErrorView { kind: ErrorKind::Line, message: "does not end with LF "@ + debug_quoted(text) }
}

/// Said of a text with a carriage return before its end.
pub open spec fn line_with_carriage_return(text: Seq<char>) -> RunErrorView {
    RunErrorView { kind: ErrorKind::Line, message: "found CR "@ + debug_quoted(text) }
}

/// Said of a query text with a line feed before its end.
pub open spec fn line_with_early_end(text: Seq<char>) -> RunErrorView {
    RunErrorView { kind: ErrorKind::Line, message: "newline before end "@ + debug_quoted(text) }
}

/// Said of a terminal line with a line feed before its end.
pub open spec fn pty_line_with_early_end(text: Seq<char>) -> RunErrorView {
    RunErrorView { kind: ErrorKind::Line, message: "LF before end "@ + debug_quoted(text) }
}

/// Said of an interactive example that does not begin with the prompt.
pub open spec fn example_without_prompt() -> RunErrorView {
    RunErrorView { kind: ErrorKind::Parse, message: "repl example must start with a prompt"@ }
}

/// Said of a query that no line feed follows.
pub open spec fn query_without_end() -> RunErrorView {
    RunErrorView { kind: ErrorKind::Parse, message: "query must be followed by a line feed"@ }
}

/// Said of a line that should be a query and does not begin with the prompt.
pub open spec fn line_without_prompt(line: Seq<char>) -> RunErrorView {
    RunErrorView { kind: ErrorKind::Parse, message: "missing prompt "@ + quoted_line(line) }
}

/// An error of an example's text, attributed to the example: the identity
/// first, the cause below it.
pub open spec fn attributed(id: ExampleIdView, cause: RunErrorView) -> RunErrorView {
    RunErrorView {
        kind: cause.kind,
        message: id.display() + "\n\nCaused by:\n    "@ + cause.message,
    }
}

/// Said of an example that is handed in under an identity that is taken.
pub open spec fn duplicate_id(id: ExampleIdView) -> RunErrorView {
    RunErrorView { kind: ErrorKind::DuplicateId, message: "duplicate session id "@ + id.debug() }
}

/// Said of an event that names an example that is not registered.
pub open spec fn session_not_found(id: ExampleIdView) -> RunErrorView {
    RunErrorView {
        kind: ErrorKind::SessionNotFound,
        message: "repl session not found "@ + id.debug(),
    }
}

/// Said of an event of the session driver that names an expression.
pub open spec fn expected_repl() -> RunErrorView {
    RunErrorView { kind: ErrorKind::WrongKind, message: "expected repl example state"@ }
}

/// Said of an event of the evaluator that names an interactive example.
pub open spec fn expected_expression() -> RunErrorView {
    RunErrorView { kind: ErrorKind::WrongKind, message: "expected expression example state"@ }
}

/// Said of a byte from an interpreter whose session is not live.
pub open spec fn session_not_live() -> RunErrorView {
    RunErrorView { kind: ErrorKind::NotLive, message: "session not live"@ }
}

/// Said of an interpreter that is reported as started while the session is
/// live.
pub open spec fn already_live(id: ExampleIdView) -> RunErrorView {
    RunErrorView {
        kind: ErrorKind::AlreadyLive,
        message: "spawned session "@ + id.debug() + " already live"@,
    }
}

/// The failure block of a result that differs from the expected one: the
/// example, then what the interpreter showed, then what was expected, each
/// verbatim between fences.
pub open spec fn result_mismatch(
    id: ExampleIdView,
    actual: Seq<char>,
    expected: Seq<char>,
) -> RunErrorView {
    RunErrorView {
        kind: ErrorKind::ResultMismatch,
        message: id.display() + "\n\nActual:\n\n```\n"@ + actual + "\n```\n\nExpected:\n\n```\n"@
            + expected + "\n```"@,
    }
}

/// The failure of an expression: the example, and below it what the
/// evaluation wrote to its standard error.
pub open spec fn expression_failed(id: ExampleIdView, stderr: Seq<char>) -> RunErrorView {
    RunErrorView { kind: ErrorKind::ExpressionFailed, message: id.display() + "\n"@ + stderr }
}

/// A failure that a driver reports, in the driver's words.
pub open spec fn driver_failed(message: Seq<char>) -> RunErrorView {
    RunErrorView { kind: ErrorKind::Driver, message }
}

/// Said of an acknowledgement of a report line while none is outstanding.
pub open spec fn unexpected_flush() -> RunErrorView {
    RunErrorView {
        kind: ErrorKind::UnexpectedFlush,
        message: "report line flushed while none was pending"@,
    }
}

impl RunError {
    /// The message, as the user is shown it.
    pub fn message(&self) -> (message: &String)
        ensures
            message@ == self@.message,
    {
        &self.message
    }

    /// The error of kind `kind` whose message is `preface` followed by
    /// `rest`.
    pub fn prefixed(kind: ErrorKind, preface: &str, rest: &str) -> (e: Self)
        ensures
            e@ == (RunErrorView { kind, message: preface@ + rest@ }),
    {
        let mut message = String::from_str(preface);
        message.append(rest);
        RunError { kind, message }
    }

    /// Makes the error that [`no_examples`] describes.
    pub fn no_examples() -> (e: Self)
        ensures
            e@ == no_examples(),
    {
        RunError {
            kind: ErrorKind::NoExamples,
            message: String::from_str("could not find any examples"),
        }
    }

    /// Makes the error that [`no_repl_examples`] describes.
    pub fn no_repl_examples() -> (e: Self)
        ensures
            e@ == no_repl_examples(),
    {
        RunError {
            kind: ErrorKind::NoExamples,
            message: String::from_str("could not find any REPL examples"),
        }
    }

    /// Makes the error that [`line_without_end`] describes.
    pub fn line_without_end(text: &str) -> (e: Self)
        ensures
            e@ == line_without_end(text@),
    {
        Self::prefixed(ErrorKind::Line, "does not end with LF ", string_debug(text).as_str())
    }

    /// Makes the error that [`line_with_carriage_return`] describes.
    pub fn line_with_carriage_return(text: &str) -> (e: Self)
        ensures
            e@ == line_with_carriage_return(text@),
    {
        Self::prefixed(ErrorKind::Line, "found CR ", string_debug(text).as_str())
    }

    /// Makes the error that [`line_with_early_end`] describes.
    pub fn line_with_early_end(text: &str) -> (e: Self)
        ensures
            e@ == line_with_early_end(text@),
    {
        Self::prefixed(ErrorKind::Line, "newline before end ", string_debug(text).as_str())
    }

    /// Makes the error that [`pty_line_with_early_end`] describes.
    pub fn pty_line_with_early_end(text: &str) -> (e: Self)
        ensures
            e@ == pty_line_with_early_end(text@),
    {
        Self::prefixed(ErrorKind::Line, "LF before end ", string_debug(text).as_str())
    }

    /// Makes the error that [`example_without_prompt`] describes.
    pub fn example_without_prompt() -> (e: Self)
        ensures
            e@ == example_without_prompt(),
    {
        RunError {
            kind: ErrorKind::Parse,
            message: String::from_str("repl example must start with a prompt"),
        }
    }

    /// Makes the error that [`query_without_end`] describes.
    pub fn query_without_end() -> (e: Self)
        ensures
            e@ == query_without_end(),
    {
        RunError {
            kind: ErrorKind::Parse,
            message: String::from_str("query must be followed by a line feed"),
        }
    }

    /// Makes the error that [`line_without_prompt`] describes.
    pub fn line_without_prompt(line: &str) -> (e: Self)
        ensures
            e@ == line_without_prompt(line@),
    {
        let mut quoted = String::from_str("LFLine(");
        quoted.append(string_debug(line).as_str());
        quoted.append(")");
        Self::prefixed(ErrorKind::Parse, "missing prompt ", quoted.as_str())
    }

    /// Attributes an error of an example's text to the example.
    pub fn attributed(id: &ExampleId, cause: &RunError) -> (e: Self)
        ensures
            e@ == attributed(id@, cause@),
    {
        let mut message = id.to_string();
        message.append("\n\nCaused by:\n    ");
        message.append(cause.message.as_str());
        RunError { kind: cause.kind, message }
    }

    /// Makes the error that [`duplicate_id`] describes.
    pub fn duplicate_id(id: &ExampleId) -> (e: Self)
        ensures
            e@ == duplicate_id(id@),
    {
        let mut message = String::from_str("duplicate session id ");
        message.append(id.to_debug_string().as_str());
        RunError { kind: ErrorKind::DuplicateId, message }
    }

    /// Makes the error that [`session_not_found`] describes.
    pub fn session_not_found(id: &ExampleId) -> (e: Self)
        ensures
            e@ == session_not_found(id@),
    {
        let mut message = String::from_str("repl session not found ");
        message.append(id.to_debug_string().as_str());
        RunError { kind: ErrorKind::SessionNotFound, message }
    }

    /// Makes the error that [`expected_repl`] describes.
    pub fn expected_repl() -> (e: Self)
        ensures
            e@ == expected_repl(),
    {
        RunError {
            kind: ErrorKind::WrongKind,
            message: String::from_str("expected repl example state"),
        }
    }

    /// Makes the error that [`expected_expression`] describes.
    pub fn expected_expression() -> (e: Self)
        ensures
            e@ == expected_expression(),
    {
        RunError {
            kind: ErrorKind::WrongKind,
            message: String::from_str("expected expression example state"),
        }
    }

    /// Makes the error that [`session_not_live`] describes.
    pub fn session_not_live() -> (e: Self)
        ensures
            e@ == session_not_live(),
    {
        RunError { kind: ErrorKind::NotLive, message: String::from_str("session not live") }
    }

    /// Makes the error that [`already_live`] describes.
    pub fn already_live(id: &ExampleId) -> (e: Self)
        ensures
            e@ == already_live(id@),
    {
        let mut message = String::from_str("spawned session ");
        message.append(id.to_debug_string().as_str());
        message.append(" already live");
        RunError { kind: ErrorKind::AlreadyLive, message }
    }

    /// The failure block of a result that differs from the expected one.
    pub fn result_mismatch(id: &ExampleId, actual: &str, expected: &str) -> (e: Self)
        ensures
            e@ == result_mismatch(id@, actual@, expected@),
    {
        let mut message = id.to_string();
        message.append("\n\nActual:\n\n```\n");
        message.append(actual);
        message.append("\n```\n\nExpected:\n\n```\n");
        message.append(expected);
        message.append("\n```");
        RunError { kind: ErrorKind::ResultMismatch, message }
    }

    /// Makes the error that [`expression_failed`] describes.
    pub fn expression_failed(id: &ExampleId, stderr: &str) -> (e: Self)
        ensures
            e@ == expression_failed(id@, stderr@),
    {
        let mut message = id.to_string();
        message.append("\n");
        message.append(stderr);
        RunError { kind: ErrorKind::ExpressionFailed, message }
    }

    /// Makes the error that [`driver_failed`] describes.
    pub fn driver_failed(message: String) -> (e: Self)
        ensures
            e@ == driver_failed(message@),
    {
        RunError { kind: ErrorKind::Driver, message }
    }

    /// Makes the error that [`unexpected_flush`] describes.
    pub fn unexpected_flush() -> (e: Self)
        ensures
            e@ == unexpected_flush(),
    {
        RunError {
            kind: ErrorKind::UnexpectedFlush,
            message: String::from_str("report line flushed while none was pending"),
        }
    }
}

} // verus!
