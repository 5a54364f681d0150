//! Lines of interpreter input, and the commands and events of the session
//! driver.

use crate::error::{
    line_with_carriage_return, line_with_early_end, line_without_end, line_without_prompt,
    pty_line_with_early_end, RunError, RunErrorView,
};
use crate::example_id::{ExampleId, ExampleIdView};
use crate::text::{chars_to_string, starts_with, str_to_chars};
use vstd::prelude::*;
use vstd::string::*;

verus! {

/// Whether the character at `i` keeps `s` from being a single line. With
/// `strict`, a carriage return before the end does so too.
pub open spec fn fault_at(s: Seq<char>, i: int, strict: bool) -> bool {
    if i == s.len() - 1 {
        s[i] != '\n'
    } else {
        s[i] == '\n' || (strict && s[i] == '\r')
    }
}

/// Whether `s` is a single line: it ends with a line feed, and holds no
/// other line feed and, with `strict`, no carriage return.
pub open spec fn is_line(s: Seq<char>, strict: bool) -> bool {
    s.len() > 0 && forall|i: int| 0 <= i < s.len() ==> !fault_at(s, i, strict)
}

/// Whether `i` is the first place at which `s` fails to be a single line.
pub open spec fn first_fault(s: Seq<char>, i: int, strict: bool) -> bool {
    &&& 0 <= i < s.len()
    &&& fault_at(s, i, strict)
    &&& forall|j: int| 0 <= j < i ==> !fault_at(s, j, strict)
}

/// Why `s` is not a line of interpreter input: the first character that
/// keeps it from being one decides.
pub open spec fn line_fault(s: Seq<char>) -> RunErrorView {
    if s.len() == 0 {
        line_without_end(s)
    } else {
        let i = choose|i: int| first_fault(s, i, true);
        if i == s.len() - 1 {
            line_without_end(s)
        } else if s[i] == '\r' {
            line_with_carriage_return(s)
        } else {
            line_with_early_end(s)
        }
    }
}

/// Whether `s` is at most one line of terminal output: empty, or a single
/// line, in which carriage returns may stand.
pub open spec fn is_pty_line(s: Seq<char>) -> bool {
    s.len() == 0 || is_line(s, false)
}

/// Why `s` is more than a line of terminal output, or less.
pub open spec fn pty_line_fault(s: Seq<char>) -> RunErrorView {
    let i = choose|i: int| first_fault(s, i, false);
    if i == s.len() - 1 {
        line_without_end(s)
    } else {
        pty_line_with_early_end(s)
    }
}

/// The first place at which `chars` fails to be a single line, if any.
fn find_fault(chars: &Vec<char>, strict: bool) -> (found: Option<usize>)
    ensures
        found is None ==> forall|i: int| 0 <= i < chars.len() ==> !fault_at(chars@, i, strict),
        found matches Some(i) ==> first_fault(chars@, i as int, strict) && (choose|k: int|
            first_fault(chars@, k, strict)) == i,
{
    let n = chars.len();
    let mut i: usize = 0;
    while i < n
        invariant
            i <= n,
            n == chars.len(),
            forall|j: int| 0 <= j < i ==> !fault_at(chars@, j, strict),
        decreases n - i,
    {
        let c = chars[i];
        let fault = if i == n - 1 {
            c != '\n'
        } else {
            c == '\n' || (strict && c == '\r')
        };
        if fault {
            proof {
                let k = choose|k: int| first_fault(chars@, k, strict);
                assert(first_fault(chars@, i as int, strict));
                assert(k == i) by {
                    if k < i {
                        assert(!fault_at(chars@, k, strict));
                    } else if k > i {
                        assert(!fault_at(chars@, i as int, strict));
                    }
                }
            }
            return Some(i);
        }
        i += 1;
    }
    None
}

/// One line of interpreter input: text that ends with a line feed and holds
/// no other line feed and no carriage return.
#[derive(Debug, PartialEq, Eq)]
pub struct LFLine(String);

impl View for LFLine {
    type V = Seq<char>;

    closed spec fn view(&self) -> Seq<char> {
        self.0@
    }
}

impl Clone for LFLine {
    fn clone(&self) -> (copy: Self)
        ensures
            copy@ == self@,
    {
        proof {
            use_type_invariant(self);
        }
        LFLine(self.0.clone())
    }
}

impl LFLine {
    /// The text is a single line of input.
    #[verifier::type_invariant]
    spec fn single_line(self) -> bool {
        is_line(self.0@, true)
    }

    /// Decides whether `s` is a line of interpreter input, and says why when
    /// it is not.
    pub fn validate_str(s: &str) -> (r: Result<(), RunError>)
        ensures
            r is Ok <==> is_line(s@, true),
            r matches Err(e) ==> e@ == line_fault(s@),
    {
        let chars = str_to_chars(s);
        if chars.len() == 0 {
            return Err(RunError::line_without_end(s));
        }
        match find_fault(&chars, true) {
            None => Ok(()),
            Some(i) => {
                if i == chars.len() - 1 {
                    Err(RunError::line_without_end(s))
                } else if chars[i] == '\r' {
                    Err(RunError::line_with_carriage_return(s))
                } else {
                    Err(RunError::line_with_early_end(s))
                }
            },
        }
    }

    /// The line that `s` holds, if it is one.
    pub fn from_str(s: &str) -> (r: Result<Self, RunError>)
        ensures
            r is Ok <==> is_line(s@, true),
            r matches Ok(line) ==> line@ == s@,
            r matches Err(e) ==> e@ == line_fault(s@),
    {
        match Self::validate_str(s) {
            Ok(()) => Ok(LFLine(s.to_owned())),
            Err(e) => Err(e),
        }
    }

    /// The line that `s` holds, if it is one.
    pub fn try_from(s: String) -> (r: Result<Self, RunError>)
        ensures
            r is Ok <==> is_line(s@, true),
            r matches Ok(line) ==> line@ == s@,
            r matches Err(e) ==> e@ == line_fault(s@),
    {
        match Self::validate_str(s.as_str()) {
            Ok(()) => Ok(LFLine(s)),
            Err(e) => Err(e),
        }
    }

    /// The line's text, which is a single line.
    pub fn as_str(&self) -> (s: &str)
        ensures
            s@ == self@,
            is_line(s@, true),
    {
        proof {
            use_type_invariant(self);
        }
        self.0.as_str()
    }
}

impl std::str::FromStr for LFLine {
    type Err = RunError;

    /// The line that `s` holds, if it is one.
    fn from_str(s: &str) -> (r: Result<Self, RunError>)
        ensures
            r is Ok <==> is_line(s@, true),
            r matches Ok(line) ==> line@ == s@,
            r matches Err(e) ==> e@ == line_fault(s@),
    {
        LFLine::from_str(s)
    }
}

/// At most one line of terminal output: text that ends with a line feed and
/// holds no other, or no text at all.
#[derive(Debug, PartialEq, Eq)]
pub struct PtyLine(String);

impl View for PtyLine {
    type V = Seq<char>;

    closed spec fn view(&self) -> Seq<char> {
        self.0@
    }
}

impl PtyLine {
    /// The text is no more than a line.
    #[verifier::type_invariant]
    spec fn at_most_a_line(self) -> bool {
        is_pty_line(self.0@)
    }

    /// The line that `s` holds, if it holds no more than one.
    pub fn from_str(s: &str) -> (r: Result<Self, RunError>)
        ensures
            r is Ok <==> is_pty_line(s@),
            r matches Ok(line) ==> line@ == s@,
            r matches Err(e) ==> e@ == pty_line_fault(s@),
    {
        let chars = str_to_chars(s);
        match find_fault(&chars, false) {
            None => Ok(PtyLine(s.to_owned())),
            Some(i) => {
                if i == chars.len() - 1 {
                    Err(RunError::line_without_end(s))
                } else {
                    Err(RunError::pty_line_with_early_end(s))
                }
            },
        }
    }

    /// The line's text, which is no more than a line.
    pub fn as_str(&self) -> (s: &str)
        ensures
            s@ == self@,
            is_pty_line(s@),
    {
        proof {
            use_type_invariant(self);
        }
        self.0.as_str()
    }
}

impl std::str::FromStr for PtyLine {
    type Err = RunError;

    /// The line that `s` holds, if it holds no more than one.
    fn from_str(s: &str) -> (r: Result<Self, RunError>)
        ensures
            r is Ok <==> is_pty_line(s@),
            r matches Ok(line) ==> line@ == s@,
            r matches Err(e) ==> e@ == pty_line_fault(s@),
    {
        PtyLine::from_str(s)
    }
}

/// The prompt that the interpreter shows before each query.
pub open spec fn prompt() -> Seq<char> {
    "nix-repl> "@
}

/// One query: the line that is written to the interpreter.
#[derive(Debug, PartialEq, Eq)]
pub struct ReplQuery(LFLine);

impl View for ReplQuery {
    type V = Seq<char>;

    closed spec fn view(&self) -> Seq<char> {
        self.0@
    }
}

impl Clone for ReplQuery {
    fn clone(&self) -> (copy: Self)
        ensures
            copy@ == self@,
    {
        ReplQuery(self.0.clone())
    }
}

impl ReplQuery {
    /// The query that consists of `query`.
    pub fn new(query: LFLine) -> (q: Self)
        ensures
            q@ == query@,
    {
        ReplQuery(query)
    }

    /// The query that a line of an example shows: the line without the
    /// prompt it begins with.
    pub fn try_from(line: LFLine) -> (r: Result<Self, RunError>)
        ensures
            r is Ok <==> starts_with(line@, prompt()),
            r matches Ok(q) ==> q@ == line@.skip(prompt().len() as int),
            r matches Err(e) ==> e@ == line_without_prompt(line@),
    {
        let chars = str_to_chars(line.as_str());
        let marker = str_to_chars("nix-repl> ");
        proof {
            reveal_strlit("nix-repl> ");
        }
        if !crate::text::matches_at(&chars, &marker, 0) {
            proof {
                if starts_with(line@, prompt()) {
                    assert(line@.take(prompt().len() as int) == line@.subrange(
                        0,
                        0 + marker@.len() as int,
                    ));
                }
            }
            return Err(RunError::line_without_prompt(line.as_str()));
        }
        let rest = chars_to_string(&chars, marker.len(), chars.len());
        proof {
            assert(line@.take(prompt().len() as int) == line@.subrange(
                0,
                0 + marker@.len() as int,
            ));
            assert(rest@ == line@.skip(prompt().len() as int));
            assert(is_line(rest@, true)) by {
                assert(rest@.len() > 0) by {
                    // the line ends with a line feed, the prompt with a blank
                    assert(!fault_at(line@, line@.len() - 1, true));
                    if rest@.len() == 0 {
                        assert(line@.len() == 10);
                        assert(line@[9] == marker@[9]);
                    }
                }
                assert forall|i: int| 0 <= i < rest@.len() implies !fault_at(rest@, i, true) by {
                    assert(!fault_at(line@, i + 10, true));
                    assert(rest@[i] == line@[i + 10]);
                }
            }
        }
        Ok(ReplQuery(LFLine(rest)))
    }

    /// The query's text, which is a single line.
    pub fn as_str(&self) -> (s: &str)
        ensures
            s@ == self@,
            is_line(s@, true),
    {
        self.0.as_str()
    }
}

/// A command to the session driver, as a mathematical value.
pub enum ReplCommandView {
    Spawn(ExampleIdView),
    Query(ExampleIdView, Seq<char>),
    Kill(ExampleIdView),
}

/// What the reducer asks of the session driver.
#[derive(Debug, PartialEq, Eq)]
pub enum ReplCommand {
    /// Start an interpreter for the example.
    Spawn(ExampleId),
    /// Write the query to the example's interpreter.
    Query(ExampleId, ReplQuery),
    /// Release the example's interpreter.
    Kill(ExampleId),
}

impl View for ReplCommand {
    type V = ReplCommandView;

    open spec fn view(&self) -> ReplCommandView {
        match self {
            ReplCommand::Spawn(id) => ReplCommandView::Spawn(id@),
            ReplCommand::Query(id, query) => ReplCommandView::Query(id@, query@),
            ReplCommand::Kill(id) => ReplCommandView::Kill(id@),
        }
    }
}

/// An event of the session driver, as a mathematical value. A failure is
/// the driver's message.
pub enum ReplEventView {
    Spawn(Result<ExampleIdView, Seq<char>>),
    Query(ExampleIdView, Seq<char>, Result<(), Seq<char>>),
    Kill(Result<ExampleIdView, Seq<char>>),
    Read(ExampleIdView, u8),
    Error(Seq<char>),
}

/// What the session driver reports. A failure carries the driver's message.
#[derive(Debug, PartialEq, Eq)]
pub enum ReplEvent {
    /// An interpreter was started for the example, or could not be.
    Spawn(Result<ExampleId, String>),
    /// The query was written to the example's interpreter, or could not be.
    Query(ExampleId, ReplQuery, Result<(), String>),
    /// The example's interpreter was released, or there was none.
    Kill(Result<ExampleId, String>),
    /// The example's interpreter wrote a byte.
    Read(ExampleId, u8),
    /// A stream failed.
    Error(String),
}

impl View for ReplEvent {
    type V = ReplEventView;

    open spec fn view(&self) -> ReplEventView {
        match self {
            ReplEvent::Spawn(Ok(id)) => ReplEventView::Spawn(Ok(id@)),
            ReplEvent::Spawn(Err(message)) => ReplEventView::Spawn(Err(message@)),
            ReplEvent::Query(id, query, Ok(())) => ReplEventView::Query(id@, query@, Ok(())),
            ReplEvent::Query(id, query, Err(message)) => ReplEventView::Query(
                id@,
                query@,
                Err(message@),
            ),
            ReplEvent::Kill(Ok(id)) => ReplEventView::Kill(Ok(id@)),
            ReplEvent::Kill(Err(message)) => ReplEventView::Kill(Err(message@)),
            ReplEvent::Read(id, byte) => ReplEventView::Read(id@, *byte),
            ReplEvent::Error(message) => ReplEventView::Error(message@),
        }
    }
}

/// Said of a query for an example that has no interpreter.
pub open spec fn no_interpreter(id: ExampleIdView) -> Seq<char> {
    "no pty for "@ + id.debug()
}

/// Said of the release of an example that has no interpreter.
pub open spec fn nothing_to_kill(id: ExampleIdView) -> Seq<char> {
    "no session "@ + id.debug() + " to kill"@
}

/// Said of a query that could not be written, for the reason `reason`.
pub open spec fn query_failed(reason: Seq<char>) -> Seq<char> {
    "failed to query "@ + reason
}

/// What the driver has to do about a command, as a mathematical value.
pub enum DriverTaskView {
    Spawn(ExampleIdView),
    Write(ExampleIdView, Seq<char>),
    Release(ExampleIdView),
    Send(ReplEventView),
}

/// What the driver has to do about a command.
#[derive(Debug, PartialEq, Eq)]
pub enum DriverTask {
    /// Start an interpreter for the example, and report how that went with
    /// [`ReplDriver::spawned`].
    Spawn(ExampleId),
    /// Write the query to the example's interpreter, and report how that went
    /// with [`ReplDriver::written`].
    Write(ExampleId, ReplQuery),
    /// Release the example's interpreter and its stream, and send
    /// `ReplEvent::Kill` with the example.
    Release(ExampleId),
    /// Nothing but send this event: the command names an example that has no
    /// interpreter.
    Send(ReplEvent),
}

impl View for DriverTask {
    type V = DriverTaskView;

    open spec fn view(&self) -> DriverTaskView {
        match self {
            DriverTask::Spawn(id) => DriverTaskView::Spawn(id@),
            DriverTask::Write(id, query) => DriverTaskView::Write(id@, query@),
            DriverTask::Release(id) => DriverTaskView::Release(id@),
            DriverTask::Send(event) => DriverTaskView::Send(event@),
        }
    }
}

/// What a command asks of a driver that holds interpreters for `sessions`:
/// the examples it holds interpreters for afterwards, and what it has to do.
/// A query or a release for an example without an interpreter is answered
/// with a failure and nothing is done.
pub open spec fn driver_command(sessions: Set<ExampleIdView>, command: ReplCommandView) -> (
    Set<ExampleIdView>,
    DriverTaskView,
) {
    match command {
        ReplCommandView::Spawn(id) => (sessions, DriverTaskView::Spawn(id)),
        ReplCommandView::Query(id, query) => (
            sessions,
            if sessions.contains(id) {
                DriverTaskView::Write(id, query)
            } else {
                DriverTaskView::Send(ReplEventView::Query(id, query, Err(no_interpreter(id))))
            },
        ),
        ReplCommandView::Kill(id) => if sessions.contains(id) {
            (sessions.remove(id), DriverTaskView::Release(id))
        } else {
            (sessions, DriverTaskView::Send(ReplEventView::Kill(Err(nothing_to_kill(id)))))
        },
    }
}

/// The examples that the identities in `ids` stand for.
spec fn held(ids: Seq<ExampleId>) -> Set<ExampleIdView> {
    Set::new(|id: ExampleIdView| exists|i: int| 0 <= i < ids.len() && ids[i]@ == id)
}

/// The bookkeeping of the session driver: the examples that have an
/// interpreter. The interpreters themselves, and their streams, are the
/// program's.
#[derive(Debug)]
pub struct ReplDriver {
    sessions: Vec<ExampleId>,
}

impl View for ReplDriver {
    type V = Set<ExampleIdView>;

    closed spec fn view(&self) -> Set<ExampleIdView> {
        held(self.sessions@)
    }
}

impl ReplDriver {
    /// No example is held twice.
    #[verifier::type_invariant]
    spec fn each_once(self) -> bool {
        forall|i: int, j: int|
            0 <= i < j < self.sessions.len() ==> self.sessions[i]@ != self.sessions[j]@
    }

    /// A driver without interpreters.
    pub fn new() -> (driver: Self)
        ensures
            driver@ == Set::<ExampleIdView>::empty(),
    {
        let driver = ReplDriver { sessions: Vec::new() };
        proof {
            assert(held(driver.sessions@) =~= Set::<ExampleIdView>::empty());
        }
        driver
    }

    /// The examples that have an interpreter, each once: the streams to read
    /// from.
    pub fn sessions(&self) -> (sessions: &Vec<ExampleId>)
        ensures
            forall|id: ExampleIdView|
                self@.contains(id) <==> exists|i: int|
                    0 <= i < sessions.len() && sessions[i]@ == id,
            forall|i: int, j: int| 0 <= i < j < sessions.len() ==> sessions[i]@ != sessions[j]@,
    {
        proof {
            use_type_invariant(self);
        }
        &self.sessions
    }

    /// Where `id` stands among the examples that are held, if it does.
    fn position(&self, id: &ExampleId) -> (found: Option<usize>)
        ensures
            found is Some <==> self@.contains(id@),
            found matches Some(i) ==> i < self.sessions.len() && self.sessions[i as int]@ == id@,
    {
        let mut i: usize = 0;
        while i < self.sessions.len()
            invariant
                i <= self.sessions.len(),
                forall|j: int| 0 <= j < i ==> self.sessions[j]@ != id@,
            decreases self.sessions.len() - i,
        {
            if self.sessions[i] == *id {
                return Some(i);
            }
            i += 1;
        }
        None
    }

    /// Decides what is to be done about a command.
    pub fn command(&mut self, repl_command: ReplCommand) -> (task: DriverTask)
        ensures
            (final(self)@, task@) == driver_command(old(self)@, repl_command@),
    {
        match repl_command {
            ReplCommand::Spawn(id) => self.spawn(id),
            ReplCommand::Query(id, query) => self.query(id, query),
            ReplCommand::Kill(id) => self.kill(id),
        }
    }

    /// Decides what is to be done to start an interpreter.
    pub fn spawn(&self, id: ExampleId) -> (task: DriverTask)
        ensures
            task@ == DriverTaskView::Spawn(id@),
    {
        DriverTask::Spawn(id)
    }

    /// Takes note of how the start of an interpreter went, and says what is
    /// to be reported. An interpreter that was started is held from now on.
    pub fn spawned(&mut self, id: ExampleId, started: Result<(), String>) -> (event: ReplEvent)
        ensures
            final(self)@ == (if started is Ok {
                old(self)@.insert(id@)
            } else {
                old(self)@
            }),
            event@ == ReplEventView::Spawn(
                match started {
                    Ok(()) => Ok(id@),
                    Err(message) => Err(message@),
                },
            ),
    {
        proof {
            use_type_invariant(&*self);
        }
        match started {
            Err(message) => ReplEvent::Spawn(Err(message)),
            Ok(()) => {
                if self.position(&id).is_none() {
                    let mut sessions: Vec<ExampleId> = Vec::new();
                    std::mem::swap(&mut self.sessions, &mut sessions);
                    let ghost before = sessions@;
                    sessions.push(id.clone());
                    proof {
                        assert forall|other: ExampleIdView|
                            held(sessions@).contains(other) <==> held(before).insert(id@).contains(
                                other,
                            ) by {
                            if held(sessions@).contains(other) {
                                let i = choose|i: int|
                                    0 <= i < sessions@.len() && sessions@[i]@ == other;
                                if i < before.len() {
                                    assert(before[i]@ == other);
                                }
                            }
                            if held(before).contains(other) {
                                let i = choose|i: int| 0 <= i < before.len() && before[i]@ == other;
                                assert(sessions@[i]@ == other);
                            }
                            if other == id@ {
                                assert(sessions@[before.len() as int]@ == other);
                            }
                        }
                        assert(held(sessions@) =~= held(before).insert(id@));
                        assert forall|i: int, j: int|
                            0 <= i < j < sessions@.len() implies sessions@[i]@ != sessions@[j]@ by {
                            if j == before.len() {
                                assert(before[i]@ == sessions@[i]@);
                            }
                        }
                    }
                    std::mem::swap(&mut self.sessions, &mut sessions);
                } else {
                    proof {
                        assert(old(self)@.insert(id@) =~= old(self)@);
                    }
                }
                ReplEvent::Spawn(Ok(id))
            },
        }
    }

    /// Decides what is to be done about a query.
    pub fn query(&self, id: ExampleId, query: ReplQuery) -> (task: DriverTask)
        ensures
            (self@, task@) == driver_command(self@, ReplCommandView::Query(id@, query@)),
    {
        if self.position(&id).is_some() {
            DriverTask::Write(id, query)
        } else {
            let mut message = String::from_str("no pty for ");
            message.append(id.to_debug_string().as_str());
            DriverTask::Send(ReplEvent::Query(id, query, Err(message)))
        }
    }

    /// Says what is to be reported of a query that was written, or could not
    /// be for the reason given.
    pub fn written(id: ExampleId, query: ReplQuery, written: Result<(), String>) -> (event:
        ReplEvent)
        ensures
            event@ == ReplEventView::Query(
                id@,
                query@,
                match written {
                    Ok(()) => Ok(()),
                    Err(reason) => Err(query_failed(reason@)),
                },
            ),
    {
        match written {
            Ok(()) => ReplEvent::Query(id, query, Ok(())),
            Err(reason) => {
                let mut message = String::from_str("failed to query ");
                message.append(reason.as_str());
                ReplEvent::Query(id, query, Err(message))
            },
        }
    }

    /// Says what is to be reported of an attempt to read a byte from the
    /// stream of an example's interpreter.
    pub fn read(id: &ExampleId, read: Result<u8, String>) -> (event: ReplEvent)
        ensures
            event@ == (match read {
                Ok(byte) => ReplEventView::Read(id@, byte),
                Err(message) => ReplEventView::Error(message@),
            }),
    {
        match read {
            Ok(byte) => ReplEvent::Read(id.clone(), byte),
            Err(message) => ReplEvent::Error(message),
        }
    }

    /// Decides what is to be done about a release. An interpreter that is to
    /// be released is held no longer.
    pub fn kill(&mut self, id: ExampleId) -> (task: DriverTask)
        ensures
            (final(self)@, task@) == driver_command(old(self)@, ReplCommandView::Kill(id@)),
    {
        proof {
            use_type_invariant(&*self);
        }
        match self.position(&id) {
            None => {
                let mut message = String::from_str("no session ");
                message.append(id.to_debug_string().as_str());
                message.append(" to kill");
                DriverTask::Send(ReplEvent::Kill(Err(message)))
            },
            Some(at) => {
                let mut sessions: Vec<ExampleId> = Vec::new();
                std::mem::swap(&mut self.sessions, &mut sessions);
                let ghost before = sessions@;
                let _ = sessions.remove(at);
                proof {
                    assert forall|i: int| 0 <= i < sessions@.len() implies sessions@[i]
                        == before[if i < at {
                        i
                    } else {
                        i + 1
                    }] by {}
                    assert forall|i: int, j: int|
                        0 <= i < j < sessions@.len() implies sessions@[i]@ != sessions@[j]@ by {
                        let i0 = if i < at {
                            i
                        } else {
                            i + 1
                        };
                        let j0 = if j < at {
                            j
                        } else {
                            j + 1
                        };
                        assert(before[i0]@ != before[j0]@);
                    }
                    assert forall|other: ExampleIdView|
                        held(sessions@).contains(other) <==> held(before).remove(id@).contains(
                            other,
                        ) by {
                        if held(sessions@).contains(other) {
                            let i = choose|i: int|
                                0 <= i < sessions@.len() && sessions@[i]@ == other;
                            let i0 = if i < at {
                                i
                            } else {
                                i + 1
                            };
                            assert(before[i0]@ == other);
                            if i0 < at {
                                assert(before[i0]@ != before[at as int]@);
                            } else {
                                assert(before[at as int]@ != before[i0]@);
                            }
                        }
                        if held(before).remove(id@).contains(other) {
                            let i = choose|i: int| 0 <= i < before.len() && before[i]@ == other;
                            let i1 = if i < at {
                                i
                            } else {
                                i - 1
                            };
                            assert(sessions@[i1]@ == other);
                        }
                    }
                    assert(held(sessions@) =~= held(before).remove(id@));
                }
                std::mem::swap(&mut self.sessions, &mut sessions);
                DriverTask::Release(id)
            },
        }
    }
}

} // verus!
