//! The protocol of one interactive session: what the reducer expects the
//! interpreter to write next, and what each byte it writes leads to.

use crate::clear_line::{
    clear_line_bytes, clear_line_step, ClearLineProgress, ClearLineProgressStatus, ClearLineStep,
};
use crate::error::{result_mismatch, session_not_live, RunError, RunErrorView};
use crate::example_id::{ExampleId, ExampleIdView};
use crate::repl::driver::{LFLine, ReplQuery};
use crate::repl::example::{
    entries_view, EntryView, ReplEntry, ReplExample, ReplExampleEntries, ReplExampleView,
};
use crate::sanitize::{observe, observed, sanitizing_is_known, LINE_FEED};
use crate::text::{chars_to_string, ends_with, str_equal, str_to_chars, string_from_utf8_lossy};
use vstd::prelude::*;
use vstd::string::*;
use vstd::utf8::*;

verus! {

/// The text that an example expects the interpreter to show for a query.
/// Empty is valid: an assignment shows nothing.
#[derive(Debug, PartialEq, Eq)]
pub struct ExpectedResult(pub String);

impl View for ExpectedResult {
    type V = Seq<char>;

    open spec fn view(&self) -> Seq<char> {
        self.0@
    }
}

impl Clone for ExpectedResult {
    fn clone(&self) -> (copy: Self)
        ensures
            copy@ == self@,
    {
        ExpectedResult(self.0.clone())
    }
}

impl ExpectedResult {
    /// The result that a line of an example shows: the line without the
    /// line feed that ends it.
    pub fn from(expected_result: LFLine) -> (r: Self)
        ensures
            r@ == expected_result@.drop_last(),
    {
        let chars = str_to_chars(expected_result.as_str());
        ExpectedResult(chars_to_string(&chars, 0, chars.len() - 1))
    }

    /// The expected text.
    pub fn as_str(&self) -> (s: &str)
        ensures
            s@ == self@,
    {
        self.0.as_str()
    }
}

/// What a live session expects the interpreter to write next, as a
/// mathematical value.
pub enum ExpectingView {
    /// The clear-line sequence before the first prompt, of which `matched`
    /// characters have come.
    ClearlineBeforeInitialPrompt { matched: nat },
    /// The clear-line sequence before the result of the query just sent.
    ClearLineBeforeResult { matched: nat, expected_result: Seq<char> },
    /// The result, and after it the clear-line sequence with which the next
    /// prompt begins; `acc` holds the bytes that have come.
    ResultAndClearlineBeforeNextPrompt { acc: Seq<u8>, expected_result: Seq<char> },
    /// The rest of a line that began with something unexpected.
    UnexpectedLine,
}

/// What one byte leads to, seen from the expectation alone.
pub enum Reading {
    /// Nothing is due yet.
    Waiting,
    /// What was expected has come in full: the next exchange is due.
    Due,
    /// What came is not what the example expects.
    Failed(RunErrorView),
}

/// The bytes of a result once the clear-line sequence behind it has come.
pub open spec fn result_bytes(acc: Seq<u8>) -> Seq<u8>
    recommends
        ends_with(acc, clear_line_bytes()),
{
    acc.take(acc.len() - clear_line_bytes().len())
}

/// What the text that a complete result shows leads to: it must be the
/// expected text, character for character.
pub open spec fn shown_reading(
    id: ExampleIdView,
    actual: Seq<char>,
    expected_result: Seq<char>,
) -> Reading {
    if actual != expected_result {
        Reading::Failed(result_mismatch(id, actual, expected_result))
    } else {
        Reading::Due
    }
}

/// What the accumulated bytes of a complete result lead to: the text that
/// they show is judged.
pub open spec fn result_reading(
    id: ExampleIdView,
    acc: Seq<u8>,
    expected_result: Seq<char>,
) -> Reading {
    shown_reading(id, decode_utf8(observed(result_bytes(acc))), expected_result)
}

/// The raw result that a byte brings to judgement, if it does: what has come
/// before the clear-line sequence that the byte completes.
pub open spec fn judged(expecting: ExpectingView, byte: u8) -> Option<Seq<u8>> {
    match expecting {
        ExpectingView::ResultAndClearlineBeforeNextPrompt { acc, expected_result } => if ends_with(
            acc.push(byte),
            clear_line_bytes(),
        ) {
            Some(result_bytes(acc.push(byte)))
        } else {
            None
        },
        _ => None,
    }
}

/// The protocol's transition on one byte: the new expectation, and what the
/// byte leads to.
pub open spec fn expecting_read(expecting: ExpectingView, id: ExampleIdView, byte: u8) -> (
    ExpectingView,
    Reading,
) {
    match expecting {
        ExpectingView::ClearlineBeforeInitialPrompt { matched } => match clear_line_step(
            matched,
            byte as char,
        ) {
            ClearLineStep::InProgress(matched) => (
                ExpectingView::ClearlineBeforeInitialPrompt { matched },
                Reading::Waiting,
            ),
            ClearLineStep::ReachedEnd => (expecting, Reading::Due),
            ClearLineStep::UnexpectedCharacter => (ExpectingView::UnexpectedLine, Reading::Waiting),
        },
        ExpectingView::ClearLineBeforeResult { matched, expected_result } => match clear_line_step(
            matched,
            byte as char,
        ) {
            ClearLineStep::InProgress(matched) => (
                ExpectingView::ClearLineBeforeResult { matched, expected_result },
                Reading::Waiting,
            ),
            ClearLineStep::ReachedEnd => (
                ExpectingView::ResultAndClearlineBeforeNextPrompt {
                    acc: Seq::empty(),
                    expected_result,
                },
                Reading::Waiting,
            ),
            ClearLineStep::UnexpectedCharacter => (ExpectingView::UnexpectedLine, Reading::Waiting),
        },
        ExpectingView::ResultAndClearlineBeforeNextPrompt { acc, expected_result } => {
            let acc = acc.push(byte);
            (
                ExpectingView::ResultAndClearlineBeforeNextPrompt { acc, expected_result },
                if ends_with(acc, clear_line_bytes()) {
                    result_reading(id, acc, expected_result)
                } else {
                    Reading::Waiting
                },
            )
        },
        ExpectingView::UnexpectedLine => (
            if byte == LINE_FEED {
                ExpectingView::ClearlineBeforeInitialPrompt { matched: 0 }
            } else {
                ExpectingView::UnexpectedLine
            },
            Reading::Waiting,
        ),
    }
}

/// What a live session expects the interpreter to write next.
#[derive(Debug)]
pub enum ReplSessionExpecting {
    ClearlineBeforeInitialPrompt { cl_progress: ClearLineProgress },
    ClearLineBeforeResult { cl_progress: ClearLineProgress, expected_result: ExpectedResult },
    ResultAndClearlineBeforeNextPrompt { acc: Vec<u8>, expected_result: ExpectedResult },
    UnexpectedLine,
}

impl View for ReplSessionExpecting {
    type V = ExpectingView;

    open spec fn view(&self) -> ExpectingView {
        match self {
            ReplSessionExpecting::ClearlineBeforeInitialPrompt { cl_progress } => {
                ExpectingView::ClearlineBeforeInitialPrompt { matched: cl_progress@ }
            },
            ReplSessionExpecting::ClearLineBeforeResult { cl_progress, expected_result } => {
                ExpectingView::ClearLineBeforeResult {
                    matched: cl_progress@,
                    expected_result: expected_result@,
                }
            },
            ReplSessionExpecting::ResultAndClearlineBeforeNextPrompt { acc, expected_result } => {
                ExpectingView::ResultAndClearlineBeforeNextPrompt {
                    acc: acc@,
                    expected_result: expected_result@,
                }
            },
            ReplSessionExpecting::UnexpectedLine => ExpectingView::UnexpectedLine,
        }
    }
}

/// What one byte leads to: see [`Reading`].
#[derive(Debug, PartialEq, Eq)]
pub enum ReadOutcome {
    Waiting,
    Due,
    Failed(RunError),
}

impl View for ReadOutcome {
    type V = Reading;

    open spec fn view(&self) -> Reading {
        match self {
            ReadOutcome::Waiting => Reading::Waiting,
            ReadOutcome::Due => Reading::Due,
            ReadOutcome::Failed(e) => Reading::Failed(e@),
        }
    }
}

/// Tests whether `acc` ends with the clear-line sequence.
fn ends_with_clear_line(acc: &Vec<u8>) -> (b: bool)
    ensures
        b == ends_with(acc@, clear_line_bytes()),
{
    let n = acc.len();
    if n < 4 {
        return false;
    }
    let b = acc[n - 4] == 0x0D && acc[n - 3] == 0x1B && acc[n - 2] == 0x5B && acc[n - 1] == 0x4B;
    proof {
        let tail = acc@.skip(n - 4);
        assert(tail[0] == acc@[n - 4] && tail[1] == acc@[n - 3] && tail[2] == acc@[n - 2]
            && tail[3] == acc@[n - 1]);
        if b {
            assert(tail =~= clear_line_bytes());
        }
    }
    b
}

/// Compares the text that a complete result shows with the expected text.
pub fn judge(id: &ExampleId, actual: &str, expected_result: &ExpectedResult) -> (outcome:
    ReadOutcome)
    ensures
        outcome@ == shown_reading(id@, actual@, expected_result@),
{
    if !str_equal(actual, expected_result.as_str()) {
        ReadOutcome::Failed(RunError::result_mismatch(id, actual, expected_result.as_str()))
    } else {
        ReadOutcome::Due
    }
}

/// Judges the result that `acc` holds before the clear-line sequence.
fn read_result(id: &ExampleId, acc: &Vec<u8>, expected_result: &ExpectedResult) -> (outcome:
    ReadOutcome)
    requires
        ends_with(acc@, clear_line_bytes()),
    ensures
        outcome@ == result_reading(id@, acc@, expected_result@),
        sanitizing_is_known(result_bytes(acc@)),
{
    let raw = vstd::slice::slice_subrange(acc.as_slice(), 0, acc.len() - 4);
    let shown = observe(raw);
    // what is shown is text: nothing is replaced
    let actual = string_from_utf8_lossy(shown.as_slice());
    judge(id, actual.as_str(), expected_result)
}

impl ReplSessionExpecting {
    /// The protocol's transition on one byte that the interpreter of example
    /// `id` wrote. A result that the byte brings to judgement has been
    /// sanitized, and would have been left as it is if it is plain text.
    pub fn read(self, id: &ExampleId, byte: u8) -> (r: (Self, ReadOutcome))
        ensures
            (r.0@, r.1@) == expecting_read(self@, id@, byte),
            judged(self@, byte) matches Some(raw) ==> sanitizing_is_known(raw),
    {
        match self {
            ReplSessionExpecting::ClearlineBeforeInitialPrompt { cl_progress } => {
                match cl_progress.character(byte as char) {
                    ClearLineProgressStatus::InProgress(cl_progress) => (
                        ReplSessionExpecting::ClearlineBeforeInitialPrompt { cl_progress },
                        ReadOutcome::Waiting,
                    ),
                    ClearLineProgressStatus::ReachedEnd => (
                        ReplSessionExpecting::ClearlineBeforeInitialPrompt { cl_progress },
                        ReadOutcome::Due,
                    ),
                    ClearLineProgressStatus::UnexpectedCharacter => (
                        ReplSessionExpecting::UnexpectedLine,
                        ReadOutcome::Waiting,
                    ),
                }
            },
            ReplSessionExpecting::ClearLineBeforeResult { cl_progress, expected_result } => {
                match cl_progress.character(byte as char) {
                    ClearLineProgressStatus::InProgress(cl_progress) => (
                        ReplSessionExpecting::ClearLineBeforeResult {
                            cl_progress,
                            expected_result,
                        },
                        ReadOutcome::Waiting,
                    ),
                    ClearLineProgressStatus::ReachedEnd => (
                        ReplSessionExpecting::ResultAndClearlineBeforeNextPrompt {
                            acc: Vec::new(),
                            expected_result,
                        },
                        ReadOutcome::Waiting,
                    ),
                    ClearLineProgressStatus::UnexpectedCharacter => (
                        ReplSessionExpecting::UnexpectedLine,
                        ReadOutcome::Waiting,
                    ),
                }
            },
            ReplSessionExpecting::ResultAndClearlineBeforeNextPrompt { acc, expected_result } => {
                let mut acc = acc;
                acc.push(byte);
                let outcome = if ends_with_clear_line(&acc) {
                    read_result(id, &acc, &expected_result)
                } else {
                    ReadOutcome::Waiting
                };
                let expecting = ReplSessionExpecting::ResultAndClearlineBeforeNextPrompt {
                    acc,
                    expected_result,
                };
                (expecting, outcome)
            },
            ReplSessionExpecting::UnexpectedLine => {
                if byte == LINE_FEED {
                    (
                        ReplSessionExpecting::ClearlineBeforeInitialPrompt {
                            cl_progress: ClearLineProgress::new(),
                        },
                        ReadOutcome::Waiting,
                    )
                } else {
                    (ReplSessionExpecting::UnexpectedLine, ReadOutcome::Waiting)
                }
            },
        }
    }
}

/// A live session as a mathematical value: the exchanges still to come, and
/// what is expected next.
pub struct LiveView {
    pub remaining: Seq<EntryView>,
    pub expecting: ExpectingView,
}

/// What one byte leads to, seen from the session.
pub enum Turn {
    /// Nothing is due yet.
    Waiting,
    /// This query is to be written to the interpreter.
    Query(Seq<char>),
    /// Every exchange has passed: the session ends.
    End,
    /// The run fails.
    Failed(RunErrorView),
}

/// A session as it starts: every exchange still to come, the first prompt
/// awaited.
pub open spec fn live_start(entries: Seq<EntryView>) -> LiveView {
    LiveView {
        remaining: entries,
        expecting: ExpectingView::ClearlineBeforeInitialPrompt { matched: 0 },
    }
}

/// The step to the next exchange: its query is sent and its result awaited;
/// or, when none is left, the session ends.
pub open spec fn live_advance(live: LiveView) -> (LiveView, Turn) {
    if live.remaining.len() > 0 {
        (
            LiveView {
                remaining: live.remaining.drop_first(),
                expecting: ExpectingView::ClearLineBeforeResult {
                    matched: 0,
                    expected_result: live.remaining[0].expected_result,
                },
            },
            Turn::Query(live.remaining[0].query),
        )
    } else {
        (live, Turn::End)
    }
}

/// The session's transition on one byte.
pub open spec fn live_read(live: LiveView, id: ExampleIdView, byte: u8) -> (LiveView, Turn) {
    let (expecting, reading) = expecting_read(live.expecting, id, byte);
    let live = LiveView { remaining: live.remaining, expecting };
    match reading {
        Reading::Waiting => (live, Turn::Waiting),
        Reading::Due => live_advance(live),
        Reading::Failed(e) => (live, Turn::Failed(e)),
    }
}

/// What one byte leads to: see [`Turn`].
#[derive(Debug, PartialEq, Eq)]
pub enum SessionTurn {
    Waiting,
    Query(ReplQuery),
    End,
    Failed(RunError),
}

impl View for SessionTurn {
    type V = Turn;

    open spec fn view(&self) -> Turn {
        match self {
            SessionTurn::Waiting => Turn::Waiting,
            SessionTurn::Query(query) => Turn::Query(query@),
            SessionTurn::End => Turn::End,
            SessionTurn::Failed(e) => Turn::Failed(e@),
        }
    }
}

/// A session whose interpreter runs: the exchanges of its example, how many
/// of them have been sent, and what is expected next. Exchanges are taken
/// from the front and never replayed.
#[derive(Debug)]
pub struct ReplSessionLive {
    entries: Vec<ReplEntry>,
    sent: usize,
    expecting: ReplSessionExpecting,
}

impl View for ReplSessionLive {
    type V = LiveView;

    closed spec fn view(&self) -> LiveView {
        LiveView {
            remaining: entries_view(self.entries@).skip(self.sent as int),
            expecting: self.expecting@,
        }
    }
}

impl ReplSessionLive {
    /// No more exchanges have been sent than there are.
    #[verifier::type_invariant]
    spec fn sent_in_range(self) -> bool {
        self.sent <= self.entries.len()
    }

    /// The session of an example with these exchanges, as it starts.
    pub fn new(entries: ReplExampleEntries) -> (live: Self)
        ensures
            live@ == live_start(entries@),
    {
        proof {
            assert(entries_view(entries.0@).skip(0) =~= entries_view(entries.0@));
        }
        Self {
            entries: entries.0,
            sent: 0,
            expecting: ReplSessionExpecting::ClearlineBeforeInitialPrompt {
                cl_progress: ClearLineProgress::new(),
            },
        }
    }

    /// What is expected next.
    pub fn expecting(&self) -> (expecting: &ReplSessionExpecting)
        ensures
            expecting@ == self@.expecting,
    {
        &self.expecting
    }

    /// The number of exchanges still to come.
    pub fn remaining(&self) -> (n: usize)
        ensures
            n == self@.remaining.len(),
    {
        proof {
            use_type_invariant(self);
        }
        self.entries.len() - self.sent
    }

    /// Takes the next exchange, if one is left.
    pub fn next(&mut self) -> (entry: Option<ReplEntry>)
        ensures
            final(self)@.expecting == old(self)@.expecting,
            old(self)@.remaining.len() == 0 ==> entry is None && final(self)@ == old(self)@,
            old(self)@.remaining.len() > 0 ==> entry is Some && entry->0@ == old(self)@.remaining[0]
                && final(self)@.remaining == old(self)@.remaining.drop_first(),
    {
        proof {
            use_type_invariant(&*self);
        }
        if self.sent < self.entries.len() {
            let entry = self.entries[self.sent].clone();
            proof {
                let all = entries_view(self.entries@);
                assert(all.skip(self.sent as int).drop_first() =~= all.skip(self.sent + 1));
            }
            self.sent = self.sent + 1;
            Some(entry)
        } else {
            None
        }
    }

    /// The step to the next exchange.
    pub fn advance(self) -> (r: (Self, SessionTurn))
        ensures
            (r.0@, r.1@) == live_advance(self@),
    {
        let mut live = self;
        match live.next() {
            Some(entry) => {
                proof {
                    use_type_invariant(&live);
                }
                let ReplSessionLive { entries, sent, expecting: _ } = live;
                let ReplEntry { query, expected_result } = entry;
                (
                    ReplSessionLive {
                        entries,
                        sent,
                        expecting: ReplSessionExpecting::ClearLineBeforeResult {
                            cl_progress: ClearLineProgress::new(),
                            expected_result,
                        },
                    },
                    SessionTurn::Query(query),
                )
            },
            None => (live, SessionTurn::End),
        }
    }

    /// The session's transition on one byte that the interpreter of example
    /// `id` wrote. A result that the byte brings to judgement has been
    /// sanitized, and would have been left as it is if it is plain text.
    pub fn read(self, id: &ExampleId, byte: u8) -> (r: (Self, SessionTurn))
        ensures
            (r.0@, r.1@) == live_read(self@, id@, byte),
            judged(self@.expecting, byte) matches Some(raw) ==> sanitizing_is_known(raw),
    {
        proof {
            use_type_invariant(&self);
        }
        let ReplSessionLive { entries, sent, expecting } = self;
        let (expecting, outcome) = expecting.read(id, byte);
        let live = ReplSessionLive { entries, sent, expecting };
        match outcome {
            ReadOutcome::Waiting => (live, SessionTurn::Waiting),
            ReadOutcome::Due => live.advance(),
            ReadOutcome::Failed(e) => (live, SessionTurn::Failed(e)),
        }
    }
}

/// The state of a session as a mathematical value.
pub enum SessionView {
    Pending,
    Live(LiveView),
    Killing,
}

/// The state of a session: its interpreter is asked for, runs, or is being
/// released.
#[derive(Debug)]
pub enum ReplSessionState {
    Pending,
    Live(ReplSessionLive),
    Killing,
}

impl View for ReplSessionState {
    type V = SessionView;

    open spec fn view(&self) -> SessionView {
        match self {
            ReplSessionState::Pending => SessionView::Pending,
            ReplSessionState::Live(live) => SessionView::Live(live@),
            ReplSessionState::Killing => SessionView::Killing,
        }
    }
}

impl ReplSessionState {
    /// The live session, for a session that is live.
    pub fn live_mut(&mut self) -> (r: Result<&mut ReplSessionLive, RunError>)
        ensures
            r is Ok <==> *old(self) is Live,
            r matches Ok(live) ==> *old(self) == ReplSessionState::Live(*live) && *final(self)
                == ReplSessionState::Live(*final(live)),
            r matches Err(e) ==> e@ == session_not_live() && *final(self) == *old(self),
    {
        match self {
            ReplSessionState::Live(live) => Ok(live),
            _ => Err(RunError::session_not_live()),
        }
    }
}

/// The state of an interactive example as a mathematical value.
pub struct ReplStateView {
    pub example: ReplExampleView,
    pub state: SessionView,
}

/// The state of an interactive example: the example, and its session.
#[derive(Debug)]
pub struct ReplExampleState {
    pub example: ReplExample,
    pub state: ReplSessionState,
}

impl View for ReplExampleState {
    type V = ReplStateView;

    open spec fn view(&self) -> ReplStateView {
        ReplStateView { example: self.example@, state: self.state@ }
    }
}

impl ReplExampleState {
    /// The state of an example that has just been registered.
    pub fn new(repl_example: ReplExample) -> (state: Self)
        ensures
            state@ == (ReplStateView { example: repl_example@, state: SessionView::Pending }),
    {
        Self { example: repl_example, state: ReplSessionState::Pending }
    }
}

} // verus!
