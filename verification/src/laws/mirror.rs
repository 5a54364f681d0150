//! A session whose interpreter mirrors the example passes.

use crate::clear_line::{clear_line, clear_line_bytes};
use crate::event::{InputEventView, OutputEventView};
use crate::example_id::ExampleIdView;
use crate::examples::ExampleView;
use crate::laws::flush::{lemma_lines_concat, lemma_lines_small, lines};
use crate::laws::locality::{about, entry_of, lemma_about_own, lemma_interleaving_does_not_matter};
use crate::laws::{
    lemma_reads_concat, lemma_run_concat, lemma_run_reads_first, lemma_run_two, read, reads,
    session_at,
};
use crate::repl::driver::{ReplCommandView, ReplEventView};
use crate::repl::example::{EntryView, ReplExampleView};
use crate::sanitize::{
    ansi_stripped, is_plain, lemma_encode_push, lemma_filter_has_no_carriage_return,
    lemma_final_byte, lemma_plain_bytes, observed, plain_is_kept, printable, sanitized,
    CARRIAGE_RETURN, LINE_FEED,
};
use crate::session::{
    expecting_read, live_read, live_start, result_bytes, ExpectingView, LiveView, ReplStateView,
    SessionView,
};
use crate::state::{pass_line, run, StateView};
use crate::table::ExampleStateView;
use crate::text::ends_with;
use vstd::prelude::*;
use vstd::utf8::*;

verus! {

/// Whether a text is shown as it is: neither sanitizing nor the removal of a
/// final line feed changes its bytes.
pub open spec fn shows_itself(text: Seq<char>) -> bool {
    observed(encode_utf8(text)) == encode_utf8(text)
}

/// What an interpreter writes as the result of an exchange when it mirrors
/// the example: the expected result, and with `line_feed` a line feed
/// behind it.
pub open spec fn written(expected_result: Seq<char>, line_feed: bool) -> Seq<u8> {
    if line_feed {
        encode_utf8(expected_result.push('\n'))
    } else {
        encode_utf8(expected_result)
    }
}

/// Whether what a mirroring interpreter writes as a result shows the
/// expected result, and holds no carriage return.
pub open spec fn shown_as_expected(expected_result: Seq<char>, line_feed: bool) -> bool {
    &&& observed(written(expected_result, line_feed)) == encode_utf8(expected_result)
    &&& !written(expected_result, line_feed).contains(CARRIAGE_RETURN)
}

/// Whether the expected result is plain text that is written so that it
/// shows itself: every character is one that a terminal shows, and unless a
/// line feed is written behind it, it does not end in one.
pub open spec fn plainly_written(expected_result: Seq<char>, line_feed: bool) -> bool {
    printable(expected_result) && (line_feed || expected_result.len() == 0
        || expected_result.last() != '\n')
}

/// Whether each expected result of `entries` is plain text that is written
/// so that it shows itself.
pub open spec fn all_plainly_written(entries: Seq<EntryView>, line_feed: bool) -> bool {
    forall|i: int|
        0 <= i < entries.len() ==> plainly_written(
            #[trigger] entries[i].expected_result,
            line_feed,
        )
}

/// Whether along the run of `events` from `state` every call of the reducer
/// has found out what it ensures to find out of the functions that it takes
/// on trust: see [`StateView::learns`].
pub open spec fn learned_along(state: StateView, events: Seq<InputEventView>) -> bool
    decreases events.len(),
{
    events.len() > 0 ==> state.learns(events[0]) && learned_along(
        state.event(events[0]).0,
        events.drop_first(),
    )
}

/// The grounds on which a written result is taken to show the expected one:
/// it is known to, or it is plain text and the reducer finds out along
/// `events` that sanitizing leaves plain text as it is.
pub open spec fn grounded(
    state: StateView,
    events: Seq<InputEventView>,
    expected_result: Seq<char>,
    line_feed: bool,
) -> bool {
    shown_as_expected(expected_result, line_feed) || (plainly_written(expected_result, line_feed)
        && learned_along(state, events))
}

/// The grounds on which the written results of `entries` are taken to show
/// the expected ones: see [`grounded`].
pub open spec fn all_grounded(
    state: StateView,
    events: Seq<InputEventView>,
    entries: Seq<EntryView>,
    line_feed: bool,
) -> bool {
    ||| forall|i: int|
        0 <= i < entries.len() ==> shown_as_expected(
            #[trigger] entries[i].expected_result,
            line_feed,
        )
    ||| learned_along(state, events) && forall|i: int|
        0 <= i < entries.len() ==> plainly_written(
            #[trigger] entries[i].expected_result,
            line_feed,
        )
}

/// What an interpreter writes for one exchange when it mirrors the example:
/// the clear-line sequence, the result, the clear-line sequence.
pub open spec fn exchange_stream(expected_result: Seq<char>, line_feed: bool) -> Seq<u8> {
    clear_line_bytes() + written(expected_result, line_feed) + clear_line_bytes()
}

/// What an interpreter writes for a sequence of exchanges when it mirrors
/// the example.
pub open spec fn exchanges_stream(entries: Seq<EntryView>, line_feed: bool) -> Seq<u8>
    decreases entries.len(),
{
    if entries.len() == 0 {
        Seq::empty()
    } else {
        exchange_stream(entries[0].expected_result, line_feed) + exchanges_stream(
            entries.drop_first(),
            line_feed,
        )
    }
}

/// What an interpreter writes over a whole session when it mirrors the
/// example: the clear-line sequence of the first prompt, then the exchanges,
/// with or without a line feed behind each result.
pub open spec fn mirrored_stream(entries: Seq<EntryView>, line_feed: bool) -> Seq<u8> {
    clear_line_bytes() + exchanges_stream(entries, line_feed)
}

/// The commands that send the queries of `entries`, in order.
pub open spec fn queries(id: ExampleIdView, entries: Seq<EntryView>) -> Seq<OutputEventView> {
    entries.map_values(
        |entry: EntryView| OutputEventView::ReplCommand(ReplCommandView::Query(id, entry.query)),
    )
}

/// What ends a session that has passed: the release of the interpreter, and
/// the report line.
pub open spec fn passed(id: ExampleIdView) -> Seq<OutputEventView> {
    seq![
        OutputEventView::ReplCommand(ReplCommandView::Kill(id)),
        OutputEventView::Eprintln(pass_line(id)),
    ]
}

/// The state of a run in which the session of `example` has just passed.
pub open spec fn with_passed(
    state: StateView,
    id: ExampleIdView,
    example: ReplExampleView,
) -> StateView {
    state.with_session(id, example, SessionView::Killing).with_line_pending()
}

/// Where a run stands once a session steps to the next of the exchanges
/// `remaining`, and what is put out.
spec fn advanced(
    state: StateView,
    id: ExampleIdView,
    example: ReplExampleView,
    remaining: Seq<EntryView>,
) -> (StateView, Seq<OutputEventView>) {
    if remaining.len() > 0 {
        (
            state.with_session(
                id,
                example,
                SessionView::Live(
                    LiveView {
                        remaining: remaining.drop_first(),
                        expecting: ExpectingView::ClearLineBeforeResult {
                            matched: 0,
                            expected_result: remaining[0].expected_result,
                        },
                    },
                ),
            ),
            seq![
                OutputEventView::ReplCommand(ReplCommandView::Query(id, remaining[0].query)),
            ],
        )
    } else {
        (with_passed(state, id, example), passed(id))
    }
}

/// A byte that leaves the session waiting changes nothing but the session.
#[verifier::rlimit(40)]
proof fn lemma_read_waiting(
    state: StateView,
    id: ExampleIdView,
    example: ReplExampleView,
    live: LiveView,
    byte: u8,
)
    requires
        state.error is None,
        session_at(state, id, example, live),
        live_read(live, id, byte).1 is Waiting,
    ensures
        state.event(read(id, byte)) == (
            state.with_session(id, example, SessionView::Live(live_read(live, id, byte).0)),
            Seq::<OutputEventView>::empty(),
        ),
        session_at(state.event(read(id, byte)).0, id, example, live_read(live, id, byte).0),
        state.event(read(id, byte)).0.error is None,
{
    let next = state.with_session(id, example, SessionView::Live(live_read(live, id, byte).0));
    assert(next.examples.dom().contains(id));
}

/// A byte with which the session steps to the next exchange.
#[verifier::rlimit(40)]
proof fn lemma_read_due(
    state: StateView,
    id: ExampleIdView,
    example: ReplExampleView,
    live: LiveView,
    byte: u8,
)
    requires
        state.error is None,
        session_at(state, id, example, live),
        expecting_read(live.expecting, id, byte).1 is Due,
    ensures
        state.event(read(id, byte)) == advanced(state, id, example, live.remaining),
{
    let (next, outputs) = advanced(state, id, example, live.remaining);
    assert(next.examples.dom().contains(id));
    assert(state.event(read(id, byte)).0 =~= next);
    assert(state.event(read(id, byte)).1 =~= outputs);
}

/// The clear-line sequence before the first prompt, from its `matched`-th
/// character on, steps the session to its first exchange.
#[verifier::rlimit(40)]
proof fn lemma_initial_clear_line(
    state: StateView,
    id: ExampleIdView,
    example: ReplExampleView,
    remaining: Seq<EntryView>,
    matched: nat,
)
    requires
        state.error is None,
        matched < 4,
        session_at(
            state,
            id,
            example,
            LiveView {
                remaining,
                expecting: ExpectingView::ClearlineBeforeInitialPrompt { matched },
            },
        ),
    ensures
        run(state, reads(id, clear_line_bytes().skip(matched as int))) == advanced(
            state,
            id,
            example,
            remaining,
        ),
    decreases 4 - matched,
{
    let live = LiveView {
        remaining,
        expecting: ExpectingView::ClearlineBeforeInitialPrompt { matched },
    };
    let bytes = clear_line_bytes().skip(matched as int);
    let byte = bytes[0];
    assert(byte as char == clear_line()[matched as int]);
    lemma_run_reads_first(state, id, bytes);
    let (next, first) = state.event(read(id, byte));
    if matched == 3 {
        lemma_read_due(state, id, example, live, byte);
        assert(bytes.drop_first() =~= Seq::<u8>::empty());
        assert(reads(id, bytes.drop_first()) =~= Seq::<InputEventView>::empty());
        assert(first + Seq::<OutputEventView>::empty() =~= first);
    } else {
        lemma_read_waiting(state, id, example, live, byte);
        assert(bytes.drop_first() =~= clear_line_bytes().skip((matched + 1) as int));
        lemma_initial_clear_line(next, id, example, remaining, matched + 1);
        let (last, rest) = advanced(next, id, example, remaining);
        assert(Seq::<OutputEventView>::empty() + rest =~= rest);
        assert(last =~= advanced(state, id, example, remaining).0);
    }
}

/// The clear-line sequence before a result, from its `matched`-th character
/// on, leaves the session accumulating the result.
#[verifier::rlimit(40)]
proof fn lemma_result_clear_line(
    state: StateView,
    id: ExampleIdView,
    example: ReplExampleView,
    remaining: Seq<EntryView>,
    expected_result: Seq<char>,
    matched: nat,
)
    requires
        state.error is None,
        matched < 4,
        session_at(
            state,
            id,
            example,
            LiveView {
                remaining,
                expecting: ExpectingView::ClearLineBeforeResult { matched, expected_result },
            },
        ),
    ensures
        run(state, reads(id, clear_line_bytes().skip(matched as int))) == (
            state.with_session(
                id,
                example,
                SessionView::Live(
                    LiveView {
                        remaining,
                        expecting: ExpectingView::ResultAndClearlineBeforeNextPrompt {
                            acc: Seq::empty(),
                            expected_result,
                        },
                    },
                ),
            ),
            Seq::<OutputEventView>::empty(),
        ),
    decreases 4 - matched,
{
    let live = LiveView {
        remaining,
        expecting: ExpectingView::ClearLineBeforeResult { matched, expected_result },
    };
    let bytes = clear_line_bytes().skip(matched as int);
    let byte = bytes[0];
    assert(byte as char == clear_line()[matched as int]);
    lemma_run_reads_first(state, id, bytes);
    lemma_read_waiting(state, id, example, live, byte);
    let (next, first) = state.event(read(id, byte));
    if matched == 3 {
        assert(bytes.drop_first() =~= Seq::<u8>::empty());
        assert(reads(id, bytes.drop_first()) =~= Seq::<InputEventView>::empty());
        assert(first + Seq::<OutputEventView>::empty() =~= first);
    } else {
        assert(bytes.drop_first() =~= clear_line_bytes().skip((matched + 1) as int));
        lemma_result_clear_line(next, id, example, remaining, expected_result, matched + 1);
        let (last, rest) = run(next, reads(id, bytes.drop_first()));
        assert(Seq::<OutputEventView>::empty() + rest =~= rest);
        assert(last =~= state.with_session(
            id,
            example,
            SessionView::Live(
                LiveView {
                    remaining,
                    expecting: ExpectingView::ResultAndClearlineBeforeNextPrompt {
                        acc: Seq::empty(),
                        expected_result,
                    },
                },
            ),
        ));
    }
}

/// Bytes without a carriage return are accumulated, and nothing else
/// happens.
#[verifier::rlimit(40)]
proof fn lemma_accumulate(
    state: StateView,
    id: ExampleIdView,
    example: ReplExampleView,
    remaining: Seq<EntryView>,
    acc: Seq<u8>,
    expected_result: Seq<char>,
    bytes: Seq<u8>,
)
    requires
        state.error is None,
        session_at(
            state,
            id,
            example,
            LiveView {
                remaining,
                expecting: ExpectingView::ResultAndClearlineBeforeNextPrompt {
                    acc,
                    expected_result,
                },
            },
        ),
        !(acc + bytes).contains(CARRIAGE_RETURN),
    ensures
        run(state, reads(id, bytes)) == (
            state.with_session(
                id,
                example,
                SessionView::Live(
                    LiveView {
                        remaining,
                        expecting: ExpectingView::ResultAndClearlineBeforeNextPrompt {
                            acc: acc + bytes,
                            expected_result,
                        },
                    },
                ),
            ),
            Seq::<OutputEventView>::empty(),
        ),
    decreases bytes.len(),
{
    let live = LiveView {
        remaining,
        expecting: ExpectingView::ResultAndClearlineBeforeNextPrompt { acc, expected_result },
    };
    let target = state.with_session(
        id,
        example,
        SessionView::Live(
            LiveView {
                remaining,
                expecting: ExpectingView::ResultAndClearlineBeforeNextPrompt {
                    acc: acc + bytes,
                    expected_result,
                },
            },
        ),
    );
    if bytes.len() == 0 {
        assert(acc + bytes =~= acc);
        assert(target =~= state);
        assert(reads(id, bytes) =~= Seq::<InputEventView>::empty());
    } else {
        let byte = bytes[0];
        let grown = acc.push(byte);
        assert(!ends_with(grown, clear_line_bytes())) by {
            if ends_with(grown, clear_line_bytes()) {
                let at = grown.len() - 4;
                assert(grown.skip(at)[0] == CARRIAGE_RETURN);
                assert((acc + bytes)[at] == grown[at]);
            }
        }
        lemma_run_reads_first(state, id, bytes);
        lemma_read_waiting(state, id, example, live, byte);
        let (next, first) = state.event(read(id, byte));
        assert(grown + bytes.drop_first() =~= acc + bytes);
        lemma_accumulate(next, id, example, remaining, grown, expected_result, bytes.drop_first());
        let (last, rest) = run(next, reads(id, bytes.drop_first()));
        assert(Seq::<OutputEventView>::empty() + rest =~= rest);
        assert(last =~= target);
    }
}

/// What has been found out along two stretches of events has been found
/// out along their concatenation, and the other way round.
pub proof fn lemma_learned_concat(
    state: StateView,
    first: Seq<InputEventView>,
    second: Seq<InputEventView>,
)
    ensures
        learned_along(state, first + second) <==> learned_along(state, first) && learned_along(
            run(state, first).0,
            second,
        ),
    decreases first.len(),
{
    if first.len() == 0 {
        assert(first + second =~= second);
    } else {
        assert((first + second)[0] == first[0]);
        assert((first + second).drop_first() =~= first.drop_first() + second);
        lemma_learned_concat(state.event(first[0]).0, first.drop_first(), second);
    }
}

/// Plain text that is written so that it shows itself is shown as expected,
/// given that sanitizing leaves what is written as it is, which it is
/// trusted to do for plain text.
pub proof fn lemma_plainly_written_is_shown(text: Seq<char>, line_feed: bool)
    requires
        plainly_written(text, line_feed),
        plain_is_kept(written(text, line_feed)),
    ensures
        shown_as_expected(text, line_feed),
{
    broadcast use vstd::utf8::encode_utf8_decode_utf8, vstd::utf8::encode_utf8_valid_utf8;

    if line_feed {
        lemma_plain_text_is_shown(text);
    } else {
        lemma_plain_bytes(text);
        lemma_final_byte(text);
        assert(is_plain(encode_utf8(text)));
    }
}

/// After a result that shows the expected text, the clear-line sequence of
/// the next prompt steps the session to the next exchange.
#[verifier::rlimit(40)]
proof fn lemma_result_complete(
    state: StateView,
    id: ExampleIdView,
    example: ReplExampleView,
    remaining: Seq<EntryView>,
    expected_result: Seq<char>,
    line_feed: bool,
    matched: nat,
)
    requires
        state.error is None,
        matched < 4,
        grounded(
            state,
            reads(id, clear_line_bytes().skip(matched as int)),
            expected_result,
            line_feed,
        ),
        session_at(
            state,
            id,
            example,
            LiveView {
                remaining,
                expecting: ExpectingView::ResultAndClearlineBeforeNextPrompt {
                    acc: written(expected_result, line_feed) + clear_line_bytes().take(
                        matched as int,
                    ),
                    expected_result,
                },
            },
        ),
    ensures
        run(state, reads(id, clear_line_bytes().skip(matched as int))) == advanced(
            state,
            id,
            example,
            remaining,
        ),
    decreases 4 - matched,
{
    broadcast use vstd::utf8::encode_utf8_decode_utf8, vstd::utf8::encode_utf8_valid_utf8;

    let text = written(expected_result, line_feed);
    let acc = text + clear_line_bytes().take(matched as int);
    let live = LiveView {
        remaining,
        expecting: ExpectingView::ResultAndClearlineBeforeNextPrompt { acc, expected_result },
    };
    let bytes = clear_line_bytes().skip(matched as int);
    let byte = bytes[0];
    let grown = acc.push(byte);
    assert(grown =~= text + clear_line_bytes().take((matched + 1) as int));
    lemma_run_reads_first(state, id, bytes);
    let (next, first) = state.event(read(id, byte));
    assert(reads(id, bytes)[0] == read(id, byte));
    assert(reads(id, bytes).drop_first() =~= reads(id, bytes.drop_first()));
    if matched == 3 {
        assert(clear_line_bytes().take(4) =~= clear_line_bytes());
        assert(grown.skip(grown.len() - 4) =~= clear_line_bytes());
        assert(result_bytes(grown) =~= text);
        if !shown_as_expected(expected_result, line_feed) {
            assert(state.learns(read(id, byte)));
            assert(state.judges(read(id, byte)) == Some(text));
            lemma_plainly_written_is_shown(expected_result, line_feed);
        }
        lemma_read_due(state, id, example, live, byte);
        assert(bytes.drop_first() =~= Seq::<u8>::empty());
        assert(reads(id, bytes.drop_first()) =~= Seq::<InputEventView>::empty());
        assert(first + Seq::<OutputEventView>::empty() =~= first);
    } else {
        assert(!ends_with(grown, clear_line_bytes())) by {
            if ends_with(grown, clear_line_bytes()) {
                assert(grown.skip(grown.len() - 4)[3] == grown[grown.len() - 1]);
            }
        }
        lemma_read_waiting(state, id, example, live, byte);
        assert(bytes.drop_first() =~= clear_line_bytes().skip((matched + 1) as int));
        lemma_result_complete(
            next,
            id,
            example,
            remaining,
            expected_result,
            line_feed,
            matched + 1,
        );
        let (last, rest) = advanced(next, id, example, remaining);
        assert(Seq::<OutputEventView>::empty() + rest =~= rest);
        assert(last =~= advanced(state, id, example, remaining).0);
    }
}

/// A text that is shown as it is, is shown as expected when it is written
/// without a line feed behind it.
pub proof fn lemma_text_that_shows_itself_is_shown(text: Seq<char>)
    requires
        shows_itself(text),
    ensures
        shown_as_expected(text, false),
{
    let bytes = encode_utf8(text);
    let clean = sanitized(bytes);
    lemma_filter_has_no_carriage_return(ansi_stripped(bytes));
    if bytes.contains(CARRIAGE_RETURN) {
        let i = choose|i: int| 0 <= i < bytes.len() && bytes[i] == CARRIAGE_RETURN;
        assert(observed(bytes)[i] == clean[i]);
        assert(clean.contains(CARRIAGE_RETURN));
    }
}

/// Plain text is shown as expected when it is written with a line feed
/// behind it, given that sanitizing leaves what is written as it is, which
/// it is trusted to do for plain text.
pub proof fn lemma_plain_text_is_shown(text: Seq<char>)
    requires
        printable(text),
        plain_is_kept(encode_utf8(text.push('\n'))),
    ensures
        shown_as_expected(text, true),
{
    broadcast use vstd::utf8::encode_utf8_decode_utf8, vstd::utf8::encode_utf8_valid_utf8;

    let raw = encode_utf8(text.push('\n'));
    assert(printable(text.push('\n')));
    assert(is_plain(raw));
    lemma_encode_push(text, '\n');
    assert(encode_scalar('\n' as u32) =~= seq![LINE_FEED]) by {
        assert(leading_byte_width_1(0x0Au32) == 0x0Au8) by (bit_vector);
    }
    assert(raw =~= encode_utf8(text).push(LINE_FEED));
    assert(raw.drop_last() =~= encode_utf8(text));
    lemma_filter_has_no_carriage_return(ansi_stripped(raw));
}

/// One mirrored exchange steps the session to the next exchange.
#[verifier::rlimit(40)]
proof fn lemma_exchange(
    state: StateView,
    id: ExampleIdView,
    example: ReplExampleView,
    remaining: Seq<EntryView>,
    expected_result: Seq<char>,
    line_feed: bool,
)
    requires
        state.error is None,
        grounded(
            state,
            reads(id, exchange_stream(expected_result, line_feed)),
            expected_result,
            line_feed,
        ),
        session_at(
            state,
            id,
            example,
            LiveView {
                remaining,
                expecting: ExpectingView::ClearLineBeforeResult { matched: 0, expected_result },
            },
        ),
    ensures
        run(state, reads(id, exchange_stream(expected_result, line_feed))) == advanced(
            state,
            id,
            example,
            remaining,
        ),
{
    let clear = clear_line_bytes();
    let text = written(expected_result, line_feed);
    lemma_reads_concat(id, clear + text, clear);
    lemma_reads_concat(id, clear, text);
    lemma_run_concat(state, reads(id, clear) + reads(id, text), reads(id, clear));
    lemma_run_concat(state, reads(id, clear), reads(id, text));
    lemma_learned_concat(state, reads(id, clear) + reads(id, text), reads(id, clear));
    if !shown_as_expected(expected_result, line_feed) {
        if line_feed {
            assert(printable(expected_result.push('\n')));
            lemma_plain_bytes(expected_result.push('\n'));
        } else {
            lemma_plain_bytes(expected_result);
        }
    }
    assert(clear.skip(0) =~= clear);
    lemma_result_clear_line(state, id, example, remaining, expected_result, 0);
    let (cleared, none) = run(state, reads(id, clear));
    assert(Seq::<u8>::empty() + text =~= text);
    lemma_accumulate(cleared, id, example, remaining, Seq::empty(), expected_result, text);
    let (shown, nothing) = run(cleared, reads(id, text));
    assert(text + clear.take(0) =~= text);
    assert(shown.examples[id] == ExampleStateView::Repl(
        ReplStateView {
            example,
            state: SessionView::Live(
                LiveView {
                    remaining,
                    expecting: ExpectingView::ResultAndClearlineBeforeNextPrompt {
                        acc: text + clear.take(0),
                        expected_result,
                    },
                },
            ),
        },
    ));
    lemma_result_complete(shown, id, example, remaining, expected_result, line_feed, 0);
    let (last, outputs) = advanced(shown, id, example, remaining);
    assert(last =~= advanced(state, id, example, remaining).0);
    assert((none + nothing) + outputs =~= outputs);
}

/// The mirrored exchanges of `entries`, of which the first query has been
/// sent, send the other queries in order and end the session with a pass.
#[verifier::rlimit(40)]
proof fn lemma_exchanges(
    state: StateView,
    id: ExampleIdView,
    example: ReplExampleView,
    entries: Seq<EntryView>,
    line_feed: bool,
)
    requires
        state.error is None,
        entries.len() > 0,
        all_grounded(state, reads(id, exchanges_stream(entries, line_feed)), entries, line_feed),
        session_at(
            state,
            id,
            example,
            LiveView {
                remaining: entries.drop_first(),
                expecting: ExpectingView::ClearLineBeforeResult {
                    matched: 0,
                    expected_result: entries[0].expected_result,
                },
            },
        ),
    ensures
        run(state, reads(id, exchanges_stream(entries, line_feed))) == (
            with_passed(state, id, example),
            queries(id, entries.drop_first()) + passed(id),
        ),
    decreases entries.len(),
{
    let rest = entries.drop_first();
    let first = exchange_stream(entries[0].expected_result, line_feed);
    lemma_reads_concat(id, first, exchanges_stream(rest, line_feed));
    lemma_run_concat(state, reads(id, first), reads(id, exchanges_stream(rest, line_feed)));
    lemma_learned_concat(state, reads(id, first), reads(id, exchanges_stream(rest, line_feed)));
    assert(grounded(state, reads(id, first), entries[0].expected_result, line_feed));
    lemma_exchange(state, id, example, rest, entries[0].expected_result, line_feed);
    let (next, sent) = advanced(state, id, example, rest);
    if rest.len() == 0 {
        assert(reads(id, exchanges_stream(rest, line_feed)) =~= Seq::<InputEventView>::empty());
        assert(queries(id, rest) =~= Seq::<OutputEventView>::empty());
        assert(sent + Seq::<OutputEventView>::empty() =~= queries(id, rest) + passed(id));
    } else {
        assert(all_grounded(
            next,
            reads(id, exchanges_stream(rest, line_feed)),
            rest,
            line_feed,
        )) by {
            assert forall|i: int| 0 <= i < rest.len() implies rest[i] == entries[i + 1] by {}
        }
        lemma_exchanges(next, id, example, rest, line_feed);
        assert(with_passed(next, id, example) =~= with_passed(state, id, example));
        assert(sent + (queries(id, rest.drop_first()) + passed(id)) =~= queries(id, rest) + passed(
            id,
        ));
    }
}

/// A session passes whose interpreter writes results that show the expected
/// ones, on either ground.
#[verifier::rlimit(40)]
proof fn lemma_session_passes(
    state: StateView,
    id: ExampleIdView,
    example: ReplExampleView,
    line_feed: bool,
)
    requires
        state.error is None,
        session_at(state, id, example, live_start(example.entries)),
        all_grounded(
            state,
            reads(id, mirrored_stream(example.entries, line_feed)),
            example.entries,
            line_feed,
        ),
    ensures
        run(state, reads(id, mirrored_stream(example.entries, line_feed))) == (
            with_passed(state, id, example),
            queries(id, example.entries) + passed(id),
        ),
        lines(queries(id, example.entries) + passed(id)) == 1,
{
    let entries = example.entries;
    let clear = clear_line_bytes();
    lemma_reads_concat(id, clear, exchanges_stream(entries, line_feed));
    lemma_run_concat(state, reads(id, clear), reads(id, exchanges_stream(entries, line_feed)));
    lemma_learned_concat(state, reads(id, clear), reads(id, exchanges_stream(entries, line_feed)));
    assert(clear.skip(0) =~= clear);
    lemma_initial_clear_line(state, id, example, entries, 0);
    let (next, sent) = advanced(state, id, example, entries);
    if entries.len() == 0 {
        assert(reads(id, exchanges_stream(entries, line_feed)) =~= Seq::<InputEventView>::empty());
        assert(queries(id, entries) =~= Seq::<OutputEventView>::empty());
        assert(sent + Seq::<OutputEventView>::empty() =~= queries(id, entries) + passed(id));
    } else {
        lemma_exchanges(next, id, example, entries, line_feed);
        assert(with_passed(next, id, example) =~= with_passed(state, id, example));
        assert(sent + (queries(id, entries.drop_first()) + passed(id)) =~= queries(id, entries)
            + passed(id));
    }
    lemma_queries_hold_no_line(id, entries);
    lemma_lines_concat(queries(id, entries), passed(id));
    lemma_lines_small(passed(id));
}

/// A session whose interpreter mirrors the example passes: fed the
/// clear-line sequence of the first prompt and then, for each exchange, the
/// clear-line sequence, the expected result and the clear-line sequence, the
/// reducer sends every query in order, then asks for the interpreter's
/// release and reports the example as passed, once; no error arises. This
/// holds in every run without an error, whatever other examples it holds,
/// and for every example whose expected results are shown as they are.
pub proof fn lemma_mirrored_session_passes(
    state: StateView,
    id: ExampleIdView,
    example: ReplExampleView,
    line_feed: bool,
)
    requires
        state.error is None,
        session_at(state, id, example, live_start(example.entries)),
        forall|i: int|
            0 <= i < example.entries.len() ==> shown_as_expected(
                #[trigger] example.entries[i].expected_result,
                line_feed,
            ),
    ensures
        run(state, reads(id, mirrored_stream(example.entries, line_feed))) == (
            with_passed(state, id, example),
            queries(id, example.entries) + passed(id),
        ),
        lines(queries(id, example.entries) + passed(id)) == 1,
{
    lemma_session_passes(state, id, example, line_feed);
}

/// A session whose interpreter prints the expected results passes, whatever
/// plain text they are: fed byte by byte the clear-line sequence of the
/// first prompt and then, for each exchange, the clear-line sequence, the
/// expected result, a line feed if one is written behind it, and the
/// clear-line sequence, the reducer sends every query in order, then asks
/// for the interpreter's release and reports the example as passed, once.
/// The one premise beyond the texts is what each call of the reducer
/// ensures of itself: see [`learned_along`].
pub proof fn lemma_printed_session_passes(
    state: StateView,
    id: ExampleIdView,
    example: ReplExampleView,
    line_feed: bool,
)
    requires
        state.error is None,
        session_at(state, id, example, live_start(example.entries)),
        forall|i: int|
            0 <= i < example.entries.len() ==> plainly_written(
                #[trigger] example.entries[i].expected_result,
                line_feed,
            ),
        learned_along(state, reads(id, mirrored_stream(example.entries, line_feed))),
    ensures
        run(state, reads(id, mirrored_stream(example.entries, line_feed))) == (
            with_passed(state, id, example),
            queries(id, example.entries) + passed(id),
        ),
        lines(queries(id, example.entries) + passed(id)) == 1,
{
    lemma_session_passes(state, id, example, line_feed);
}

/// No command that sends a query is a report line.
proof fn lemma_queries_hold_no_line(id: ExampleIdView, entries: Seq<EntryView>)
    ensures
        lines(queries(id, entries)) == 0,
    decreases entries.len(),
{
    if entries.len() > 0 {
        assert(queries(id, entries).drop_last() =~= queries(id, entries.drop_last()));
        lemma_queries_hold_no_line(id, entries.drop_last());
    }
}

/// The events of a whole run on one interactive example whose interpreter
/// mirrors it: the example is handed in, its interpreter starts and writes
/// the mirrored stream, its release is acknowledged, and the report line is
/// written.
pub open spec fn mirrored_run(example: ReplExampleView, line_feed: bool) -> Seq<
    InputEventView,
> {
    seq![
        InputEventView::Example(ExampleView::Repl(example)),
        InputEventView::ReplEvent(ReplEventView::Spawn(Ok(example.id))),
    ] + reads(example.id, mirrored_stream(example.entries, line_feed)) + seq![
        InputEventView::ReplEvent(ReplEventView::Kill(Ok(example.id))),
        InputEventView::Eprintlned,
    ]
}

/// The state of a run that holds nothing but the live session of `example`
/// as it starts.
spec fn only_session(example: ReplExampleView) -> StateView {
    StateView::initial().with_session(
        example.id,
        example,
        SessionView::Live(live_start(example.entries)),
    )
}

/// An example is handed in and its interpreter starts: the interpreter is
/// asked for, and the session is live.
#[verifier::rlimit(40)]
proof fn lemma_run_opens(example: ReplExampleView)
    ensures
        run(
            StateView::initial(),
            seq![
                InputEventView::Example(ExampleView::Repl(example)),
                InputEventView::ReplEvent(ReplEventView::Spawn(Ok(example.id))),
            ],
        ) == (
            only_session(example),
            seq![OutputEventView::ReplCommand(ReplCommandView::Spawn(example.id))],
        ),
{
    let id = example.id;
    let handed = InputEventView::Example(ExampleView::Repl(example));
    let started = InputEventView::ReplEvent(ReplEventView::Spawn(Ok(id)));
    lemma_run_two(StateView::initial(), handed, started);
    let (registered, asked) = StateView::initial().event(handed);
    assert(registered.examples.dom().contains(id));
    let (spawned, silent) = registered.event(started);
    assert(spawned.examples.dom().contains(id));
    assert(spawned =~= only_session(example));
    assert(asked + silent =~= seq![OutputEventView::ReplCommand(ReplCommandView::Spawn(id))]);
}

/// The release of the last session is acknowledged and its report line is
/// written: the run ends, passed.
#[verifier::rlimit(40)]
proof fn lemma_run_closes(example: ReplExampleView)
    ensures
        run(
            with_passed(only_session(example), example.id, example),
            seq![
                InputEventView::ReplEvent(ReplEventView::Kill(Ok(example.id))),
                InputEventView::Eprintlned,
            ],
        ) == (StateView::initial(), seq![OutputEventView::Done(Ok(()))]),
{
    let id = example.id;
    let ended = with_passed(only_session(example), id, example);
    let killed = InputEventView::ReplEvent(ReplEventView::Kill(Ok(id)));
    lemma_run_two(ended, killed, InputEventView::Eprintlned);
    let (released, quiet) = ended.event(killed);
    assert(released.examples =~= Map::<ExampleIdView, ExampleStateView>::empty());
    assert(released.examples.dom() =~= Set::<ExampleIdView>::empty());
    let (finished, done) = released.event(InputEventView::Eprintlned);
    assert(finished =~= StateView::initial());
    assert(quiet + done =~= seq![OutputEventView::Done(Ok(()))]);
}

/// A run on one mirrored example passes: it asks for the interpreter, sends
/// every query in order, asks for the release, reports the pass once, and
/// ends without an error once the line is written.
pub proof fn lemma_mirrored_run_passes(example: ReplExampleView, line_feed: bool)
    requires
        forall|i: int|
            0 <= i < example.entries.len() ==> shown_as_expected(
            #[trigger] example.entries[i].expected_result,
            line_feed,
        ),
    ensures
        run(StateView::initial(), mirrored_run(example, line_feed)) == (
            StateView::initial(),
            seq![OutputEventView::ReplCommand(ReplCommandView::Spawn(example.id))] + queries(
                example.id,
                example.entries,
            ) + passed(example.id) + seq![OutputEventView::Done(Ok(()))],
        ),
{
    let id = example.id;
    let opening = seq![
        InputEventView::Example(ExampleView::Repl(example)),
        InputEventView::ReplEvent(ReplEventView::Spawn(Ok(id))),
    ];
    let stream = reads(id, mirrored_stream(example.entries, line_feed));
    let closing = seq![
        InputEventView::ReplEvent(ReplEventView::Kill(Ok(id))),
        InputEventView::Eprintlned,
    ];
    lemma_run_concat(StateView::initial(), opening + stream, closing);
    lemma_run_concat(StateView::initial(), opening, stream);
    lemma_run_opens(example);
    lemma_mirrored_session_passes(only_session(example), id, example, line_feed);
    lemma_run_closes(example);
}

/// A mirrored session passes in any interleaving: in a run from the start,
/// whatever examples it holds and whatever happens to them in between, an
/// example that is handed in, whose interpreter starts and then writes the
/// mirrored stream, ends up passed, with its interpreter to be released.
pub proof fn lemma_mirrored_session_passes_in_any_interleaving(
    events: Seq<InputEventView>,
    example: ReplExampleView,
    line_feed: bool,
)
    requires
        forall|i: int|
            0 <= i < example.entries.len() ==> shown_as_expected(
            #[trigger] example.entries[i].expected_result,
            line_feed,
        ),
        about(events, example.id) == seq![
            InputEventView::Example(ExampleView::Repl(example)),
            InputEventView::ReplEvent(ReplEventView::Spawn(Ok(example.id))),
        ] + reads(example.id, mirrored_stream(example.entries, line_feed)),
    ensures
        entry_of(run(StateView::initial(), events).0, example.id) == Some(
            ExampleStateView::Repl(ReplStateView { example, state: SessionView::Killing }),
        ),
{
    let id = example.id;
    let opening = seq![
        InputEventView::Example(ExampleView::Repl(example)),
        InputEventView::ReplEvent(ReplEventView::Spawn(Ok(id))),
    ];
    let stream = reads(id, mirrored_stream(example.entries, line_feed));
    let mine = opening + stream;
    // alone, the events about the example make it pass
    lemma_run_concat(StateView::initial(), opening, stream);
    lemma_run_opens(example);
    lemma_mirrored_session_passes(only_session(example), id, example, line_feed);
    assert(with_passed(only_session(example), id, example).examples.contains_key(id));
    // and among others they make of it what they make of it alone
    lemma_about_own(mine, id);
    lemma_interleaving_does_not_matter(StateView::initial(), mine, id);
    lemma_interleaving_does_not_matter(StateView::initial(), events, id);
}

} // verus!
