//! The parts of the library one by one, on concrete values.

use eelco::clear_line::{ClearLineProgress, ClearLineProgressStatus};
use eelco::error::{ErrorKind, RunError};
use eelco::event::{InputEvent, OutputEvent};
use eelco::example_id::ExampleId;
use eelco::examples::{
    classify, collect, collect_repl, obtain_repl, Document, DocumentNode, Example, ExampleKind,
};
use eelco::expression::{
    EvaluateExpression, ExpressionDriver, ExpressionEvent, ExpressionExample,
    ExpressionExampleState, ExpressionOutput,
};
use eelco::repl::driver::{
    DriverTask, LFLine, PtyLine, ReplCommand, ReplDriver, ReplEvent, ReplQuery,
};
use eelco::repl::example::{ReplEntry, ReplExample, ReplExampleEntries};
use eelco::sanitize::{observe, remove_carriage_returns, sanitize};
use eelco::session::{
    judge, ExpectedResult, ReadOutcome, ReplExampleState, ReplSessionExpecting, ReplSessionLive,
    ReplSessionState, SessionTurn,
};
use eelco::state::State;
use eelco::table::{ExampleState, ExamplesState};
use eelco::text::{char_is_whitespace, decimal_string, str_equal};

const CLEAR_LINE: &[u8] = b"\r\x1b[K";

fn id(line: usize) -> ExampleId {
    ExampleId::new("doc.md".to_owned(), line)
}

fn entry(query: &str, expected_result: &str) -> ReplEntry {
    ReplEntry::new(
        ReplQuery::new(query.parse().unwrap()),
        ExpectedResult(expected_result.to_owned()),
    )
}

fn repl(line: usize, entries: Vec<ReplEntry>) -> Example {
    Example::Repl(ReplExample { id: id(line), entries: ReplExampleEntries(entries) })
}

fn expression(line: usize, text: &str) -> Example {
    Example::Expression(ExpressionExample::new(id(line), text.to_owned()))
}

fn read(line: usize, byte: u8) -> InputEvent {
    InputEvent::ReplEvent(ReplEvent::Read(id(line), byte))
}

/// Feeds the bytes to the session of the example at `line`, and gathers
/// what is put out.
fn feed(state: &mut State, line: usize, bytes: &[u8]) -> Vec<OutputEvent> {
    state.feed(&id(line), bytes)
}

/// A state in which the session of the example at `line` has just become
/// live.
fn live(line: usize, entries: Vec<ReplEntry>) -> State {
    let mut state = State::new();
    assert_eq!(
        state.event(InputEvent::Example(repl(line, entries))),
        vec![OutputEvent::ReplCommand(ReplCommand::Spawn(id(line)))]
    );
    assert_eq!(state.event(InputEvent::ReplEvent(ReplEvent::Spawn(Ok(id(line))))), vec![]);
    state
}

fn query_command(line: usize, query: &str) -> OutputEvent {
    OutputEvent::ReplCommand(ReplCommand::Query(id(line), ReplQuery::new(query.parse().unwrap())))
}

fn passed(line: usize) -> Vec<OutputEvent> {
    vec![
        OutputEvent::ReplCommand(ReplCommand::Kill(id(line))),
        OutputEvent::Eprintln(format!("PASS: doc.md:{line}")),
    ]
}

// The identity of an example.

#[test]
fn example_id_is_shown_as_path_and_line() {
    assert_eq!(id(1).to_string(), "doc.md:1");
    let far = ExampleId::new("a/b c.md".to_owned(), 1234567890);
    assert_eq!(far.to_string(), "a/b c.md:1234567890");
    assert_eq!(id(0).to_string(), "doc.md:0");
    assert_eq!(id(10).to_debug_string(), "ExampleId(doc.md:10)");
}

#[test]
fn example_ids_are_equal_when_path_and_line_are() {
    assert_eq!(id(3), id(3));
    assert_ne!(id(3), id(4));
    assert_ne!(id(3), ExampleId::new("other.md".to_owned(), 3));
    assert_eq!(id(3).clone(), id(3));
    assert_eq!(id(3).line(), 3);
    assert_eq!(id(3).source_path(), "doc.md");
}

#[test]
fn decimal_numerals() {
    assert_eq!(decimal_string(0), "0");
    assert_eq!(decimal_string(7), "7");
    assert_eq!(decimal_string(10), "10");
    assert_eq!(decimal_string(909), "909");
    assert_eq!(decimal_string(usize::MAX), usize::MAX.to_string());
}

#[test]
fn white_space_is_what_the_standard_library_says() {
    for c in ['\t', '\n', '\u{b}', '\u{c}', '\r', ' ', '\u{85}', '\u{a0}', '\u{2003}', '\u{3000}'] {
        assert!(char_is_whitespace(c));
    }
    let mut code: u32 = 0;
    while code < 0x3100 {
        if let Some(c) = char::from_u32(code) {
            assert_eq!(char_is_whitespace(c), c.is_whitespace());
        }
        code += 1;
    }
}

// The clear-line matcher.

#[test]
fn clear_line_is_matched_character_by_character() {
    let progress = ClearLineProgress::new();
    assert_eq!(progress.matched(), 0);
    let ClearLineProgressStatus::InProgress(progress) = progress.character('\r') else {
        panic!("the first character is not the end");
    };
    assert_eq!(progress.matched(), 1);
    let ClearLineProgressStatus::InProgress(progress) = progress.character('\u{1b}') else {
        panic!("the second character is not the end");
    };
    let ClearLineProgressStatus::InProgress(progress) = progress.character('[') else {
        panic!("the third character is not the end");
    };
    assert_eq!(progress.matched(), 3);
    assert!(matches!(progress.character('K'), ClearLineProgressStatus::ReachedEnd));
}

#[test]
fn clear_line_mismatch_at_every_position() {
    assert!(matches!(
        ClearLineProgress::new().character('n'),
        ClearLineProgressStatus::UnexpectedCharacter
    ));
    let ClearLineProgressStatus::InProgress(second) = ClearLineProgress::new().character('\r')
    else {
        panic!();
    };
    assert!(matches!(second.character('\r'), ClearLineProgressStatus::UnexpectedCharacter));
    let ClearLineProgressStatus::InProgress(third) = second.character('\u{1b}') else {
        panic!();
    };
    assert!(matches!(third.character('K'), ClearLineProgressStatus::UnexpectedCharacter));
    let ClearLineProgressStatus::InProgress(fourth) = third.character('[') else {
        panic!();
    };
    assert!(matches!(fourth.character('['), ClearLineProgressStatus::UnexpectedCharacter));
    // a matcher is a value: the same position can be fed again
    assert!(matches!(fourth.character('K'), ClearLineProgressStatus::ReachedEnd));
}

// Sanitization.

#[test]
fn sanitize_strips_escape_sequences_and_carriage_returns() {
    assert_eq!(sanitize(b"\x1b[32mfoo\x1b[m bar\r\n"), b"foo bar\n");
    assert_eq!(sanitize(b"\x1b[36;1m2\x1b[0m\r\n"), b"2\n");
    assert_eq!(sanitize(b"plain"), b"plain");
    assert_eq!(sanitize(b""), b"");
    assert_eq!(sanitize(b"\r\r\r"), b"");
    assert_eq!(
        sanitize("h\u{e9}llo \u{1f600}\r\n".as_bytes()),
        "h\u{e9}llo \u{1f600}\n".as_bytes()
    );
}

#[test]
fn sanitize_is_idempotent() {
    let inputs: [&[u8]; 8] = [
        b"",
        b"2",
        b"\x1b[32mfoo\x1b[m bar\r\n",
        b"\r\x1b[K",
        b"a\x7fb\tc\x07d",
        b"\xff\xfe broken \xc3",
        b"\x1b]0;title\x07text\x1b[1;31mred",
        "\u{85}\u{9b}31m\u{fffd}".as_bytes(),
    ];
    for input in inputs {
        let once = sanitize(input);
        assert_eq!(sanitize(&once), once);
        assert!(!once.contains(&b'\r'));
    }
}

#[test]
fn carriage_returns_are_removed_and_nothing_else() {
    assert_eq!(remove_carriage_returns(b"a\rb\r\nc\r"), b"ab\nc");
    assert_eq!(remove_carriage_returns(b"\x1b[K\n"), b"\x1b[K\n");
}

#[test]
fn observed_text_loses_one_final_line_feed() {
    assert_eq!(observe(b"2\r\n"), b"2");
    assert_eq!(observe(b"2\n\n"), b"2\n");
    assert_eq!(observe(b"2"), b"2");
    assert_eq!(observe(b"\n"), b"");
    assert_eq!(observe(b""), b"");
    assert_eq!(observe(b"{\r\n  a = 1;\r\n}\r\n"), b"{\n  a = 1;\n}");
}

// Lines of input.

#[test]
fn lines_of_input_are_validated() {
    assert!(LFLine::validate_str("1 + 1\n").is_ok());
    assert!(LFLine::validate_str("\n").is_ok());
    assert_eq!(LFLine::from_str("a = 1\n").unwrap().as_str(), "a = 1\n");
    assert_eq!(LFLine::try_from("a\n".to_owned()).unwrap().as_str(), "a\n");
    let line: LFLine = "tab\tand blank \n".parse().unwrap();
    assert_eq!(line.as_str(), "tab\tand blank \n");
}

#[test]
fn line_without_line_feed_is_refused() {
    let error = LFLine::validate_str("1 + 1").unwrap_err();
    assert_eq!(error.kind, ErrorKind::Line);
    assert_eq!(error.message, "does not end with LF \"1 + 1\"");
    let error = LFLine::validate_str("").unwrap_err();
    assert_eq!(error.message, "does not end with LF \"\"");
    let error = LFLine::validate_str("a\r").unwrap_err();
    assert_eq!(error.message, "does not end with LF \"a\\r\"");
}

#[test]
fn line_with_carriage_return_is_refused() {
    let error = LFLine::validate_str("a\r\n").unwrap_err();
    assert_eq!(error.kind, ErrorKind::Line);
    assert_eq!(error.message, "found CR \"a\\r\\n\"");
    assert!(LFLine::from_str("a\r\n").is_err());
    assert!(LFLine::try_from("\rb\n".to_owned()).is_err());
}

#[test]
fn line_with_early_line_feed_is_refused() {
    let error = LFLine::validate_str("a\nb\n").unwrap_err();
    assert_eq!(error.kind, ErrorKind::Line);
    assert_eq!(error.message, "newline before end \"a\\nb\\n\"");
    // the first fault decides
    let error = LFLine::validate_str("a\nb\rc").unwrap_err();
    assert_eq!(error.message, "newline before end \"a\\nb\\rc\"");
    let error = LFLine::validate_str("a\rb\nc").unwrap_err();
    assert_eq!(error.message, "found CR \"a\\rb\\nc\"");
}

#[test]
fn terminal_lines_may_hold_carriage_returns() {
    assert_eq!(PtyLine::from_str("a\r\n").unwrap().as_str(), "a\r\n");
    let line: PtyLine = "plain\n".parse().unwrap();
    assert_eq!(line.as_str(), "plain\n");
    assert_eq!(PtyLine::from_str("a").unwrap_err().message, "does not end with LF \"a\"");
    assert_eq!(PtyLine::from_str("").unwrap().as_str(), "");
    assert_eq!(PtyLine::from_str("a\nb\n").unwrap_err().message, "LF before end \"a\\nb\\n\"");
}

#[test]
fn query_is_the_line_behind_the_prompt() {
    let query = ReplQuery::try_from("nix-repl> 1 + 1\n".parse().unwrap()).unwrap();
    assert_eq!(query.as_str(), "1 + 1\n");
    let query = ReplQuery::try_from("nix-repl> \n".parse().unwrap()).unwrap();
    assert_eq!(query.as_str(), "\n");
    let error = ReplQuery::try_from("nix-repl>\n".parse().unwrap()).unwrap_err();
    assert_eq!(error.kind, ErrorKind::Parse);
    assert_eq!(error.message, "missing prompt LFLine(\"nix-repl>\\n\")");
    assert_eq!(ReplQuery::new("a\n".parse().unwrap()).clone().as_str(), "a\n");
}

#[test]
fn expected_result_is_the_line_without_its_end() {
    assert_eq!(ExpectedResult::from("2\n".parse().unwrap()), ExpectedResult("2".to_owned()));
    assert_eq!(ExpectedResult::from("\n".parse().unwrap()).as_str(), "");
}

// The text of interactive examples.

#[test]
fn parse_success() {
    let cases: Vec<(&str, Vec<ReplEntry>)> = vec![
        ("nix-repl> 1 + 1\n2\n\n", vec![entry("1 + 1\n", "2")]),
        ("nix-repl> a = 1\n\n", vec![entry("a = 1\n", "")]),
        (
            "nix-repl> 1 + 1\n2\n\nnix-repl> \"a\" + \"b\"\n\"ab\"\n\n",
            vec![entry("1 + 1\n", "2"), entry("\"a\" + \"b\"\n", "\"ab\"")],
        ),
        (
            "nix-repl> b = \"b\"\n\nnix-repl> 1\n1\n\n",
            vec![entry("b = \"b\"\n", ""), entry("1\n", "1")],
        ),
        (
            "nix-repl> { a=1; b=2; }\n{\n  a = 1\n  b = 2\n}\n\n",
            vec![entry("{ a=1; b=2; }\n", "{\n  a = 1\n  b = 2\n}")],
        ),
    ];
    for (input, expected_output) in cases {
        let actual: ReplExampleEntries = input.parse().unwrap();
        assert_eq!(actual.0, expected_output);
        assert_eq!(actual.as_vec(), &expected_output);
        assert_eq!(ReplExampleEntries::from_str(input).unwrap(), actual.clone());
    }
}

#[test]
fn parse_needs_the_prompt_at_the_start() {
    for input in ["", "nix-repl>", " nix-repl> 1\n1\n", "nix-shnepl> nope\ndope\n", "1 + 1\n2\n"] {
        let error = ReplExampleEntries::from_str(input).unwrap_err();
        assert_eq!(error.kind, ErrorKind::Parse);
        assert_eq!(error.message, "repl example must start with a prompt");
    }
}

#[test]
fn parse_needs_a_line_feed_behind_each_query() {
    let inputs = [
        "nix-repl> ",
        "nix-repl> 1 + 1",
        "nix-repl> a\nnix-repl> b\n1\n",
        "nix-repl> a\n1\nnix-repl> b",
    ];
    for input in inputs {
        let error = ReplExampleEntries::from_str(input).unwrap_err();
        assert_eq!(error.kind, ErrorKind::Parse);
        assert_eq!(error.message, "query must be followed by a line feed");
    }
}

#[test]
fn parse_refuses_a_carriage_return_in_a_query() {
    let error = ReplExampleEntries::from_str("nix-repl> a\r\n1\n").unwrap_err();
    assert_eq!(error.kind, ErrorKind::Line);
    assert_eq!(error.message, "found CR \"a\\r\\n\"");
}

#[test]
fn parse_keeps_what_looks_like_a_prompt_inside_a_line() {
    let entries =
        ReplExampleEntries::from_str("nix-repl> \"nix-repl> \"\n\"nix-repl> \"\n").unwrap();
    assert_eq!(entries.0, vec![entry("\"nix-repl> \"\n", "\"nix-repl> \"")]);
    // white space of every kind is dropped from the end of a result, and from its
    // start the blank lines, but not what indents its first line
    let entries = ReplExampleEntries::from_str("nix-repl> 1\n\n 1 \t\u{a0}\n \n").unwrap();
    assert_eq!(entries.0, vec![entry("1\n", " 1")]);
}

#[test]
fn parse_passes_over_blank_lines_before_a_result() {
    let entries = ReplExampleEntries::from_str("nix-repl> 1 + 1\n\n2\n").unwrap();
    assert_eq!(entries.0, vec![entry("1 + 1\n", "2")]);
    let entries = ReplExampleEntries::from_str("nix-repl> 1 + 1\n2\n").unwrap();
    assert_eq!(entries.0, vec![entry("1 + 1\n", "2")]);
    let text = "nix-repl> a\n \t\n\n  {\n\n  }\n\nnix-repl> b\n\n\n";
    let entries = ReplExampleEntries::from_str(text).unwrap();
    assert_eq!(entries.0, vec![entry("a\n", "  {\n\n  }"), entry("b\n", "")]);
    let entries = ReplExampleEntries::from_str("nix-repl> a\n   ").unwrap();
    assert_eq!(entries.0, vec![entry("a\n", "")]);
}

#[test]
fn example_is_read_from_its_text() {
    let example = ReplExample::try_new(id(4), "nix-repl> 1 + 1\n2\n".to_owned()).unwrap();
    assert_eq!(
        example,
        ReplExample { id: id(4), entries: ReplExampleEntries(vec![entry("1 + 1\n", "2")]) }
    );
    assert_eq!(example.clone(), example);
    let error = ReplExample::try_new(id(4), "2\n".to_owned()).unwrap_err();
    assert_eq!(error.message, "repl example must start with a prompt");
}

#[test]
fn line_pairs_are_read_with_blank_lines_anywhere() {
    let entries = ReplExampleEntries::from_line_pairs("nix-repl> 1 + 1\n\n2\n").unwrap();
    assert_eq!(entries.0, vec![entry("1 + 1\n", "2")]);
    let entries =
        ReplExampleEntries::from_line_pairs("\n\nnix-repl> a\n1\nnix-repl> b\n\n\n2\n\n").unwrap();
    assert_eq!(entries.0, vec![entry("a\n", "1"), entry("b\n", "2")]);
    // a last line without a partner is left out
    let entries = ReplExampleEntries::from_line_pairs("nix-repl> a\n1\nnix-repl> b\n").unwrap();
    assert_eq!(entries.0, vec![entry("a\n", "1")]);
    assert_eq!(ReplExampleEntries::from_line_pairs("").unwrap().0, vec![]);
}

#[test]
fn line_pairs_fail_on_the_first_fault() {
    let error = ReplExampleEntries::from_line_pairs("nix-shnepl> nope\ndope\n").unwrap_err();
    assert_eq!(error.kind, ErrorKind::Parse);
    assert_eq!(error.message, "missing prompt LFLine(\"nix-shnepl> nope\\n\")");
    let error = ReplExampleEntries::from_line_pairs("nix-repl> a\n1").unwrap_err();
    assert_eq!(error.message, "does not end with LF \"1\"");
    let error = ReplExampleEntries::from_line_pairs("nix-repl> a\r\n1\n").unwrap_err();
    assert_eq!(error.message, "found CR \"nix-repl> a\\r\\n\"");
    let error = ReplExampleEntries::from_line_pairs("a\n1\nb\r\n").unwrap_err();
    assert_eq!(error.message, "missing prompt LFLine(\"a\\n\")");
}

#[test]
fn entry_from_two_lines() {
    let made = ReplEntry::try_from("nix-repl> 1 + 1\n".parse().unwrap(), "2\n".parse().unwrap());
    assert_eq!(made.unwrap(), entry("1 + 1\n", "2"));
    let failed = ReplEntry::try_from("1 + 1\n".parse().unwrap(), "2\n".parse().unwrap());
    assert_eq!(failed.unwrap_err().message, "missing prompt LFLine(\"1 + 1\\n\")");
}

// Finding examples.

#[test]
fn blocks_are_classified_by_their_tag() {
    assert_eq!(classify("nix-repl"), Some(ExampleKind::Repl));
    assert_eq!(classify("nix"), Some(ExampleKind::Expression));
    assert_eq!(classify("  nix\textra words"), Some(ExampleKind::Expression));
    assert_eq!(classify("nix-repl title=\"x\""), Some(ExampleKind::Repl));
    assert_eq!(classify(""), None);
    assert_eq!(classify(" \t "), None);
    assert_eq!(classify("rust"), None);
    assert_eq!(classify("nixos"), None);
    assert_eq!(classify("Nix"), None);
    assert_eq!(classify("skip"), None);
}

#[test]
fn blocks_marked_skip_hold_no_example() {
    assert_eq!(classify("nix skip"), None);
    assert_eq!(classify("nix foo skip"), None);
    assert_eq!(classify("nix-repl skip "), None);
    assert_eq!(classify("nix skipped"), Some(ExampleKind::Expression));
    assert_eq!(classify("nix skip foo"), Some(ExampleKind::Expression));
}

#[test]
fn examples_are_collected_from_nodes_in_order() {
    let block = |info: &str, literal: &str, line: usize| DocumentNode::CodeBlock {
        info: info.to_owned(),
        literal: literal.to_owned(),
        line,
    };
    let nodes = vec![
        DocumentNode::Other,
        block("nix", "null\n", 3),
        block("text", "nothing\n", 7),
        DocumentNode::Other,
        block("nix-repl", "nix-repl> 1 + 1\n2\n", 11),
        block("nix skip", "assert false; null\n", 16),
    ];
    let found = collect(vec![expression(1, "0\n")], &"doc.md".to_owned(), &nodes).unwrap();
    assert_eq!(
        found,
        vec![expression(1, "0\n"), expression(3, "null\n"), repl(11, vec![entry("1 + 1\n", "2")])]
    );
    assert_eq!(collect(Vec::new(), &"doc.md".to_owned(), &Vec::new()).unwrap(), vec![]);
}

#[test]
fn malformed_example_is_attributed() {
    let nodes = vec![
        DocumentNode::CodeBlock { info: "nix".to_owned(), literal: "null\n".to_owned(), line: 1 },
        DocumentNode::CodeBlock {
            info: "nix-repl".to_owned(),
            literal: "nix-shnepl> nope\n".to_owned(),
            line: 5,
        },
        DocumentNode::CodeBlock {
            info: "nix-repl".to_owned(),
            literal: "nix-repl> never read".to_owned(),
            line: 9,
        },
    ];
    let error = collect(Vec::new(), &"doc.md".to_owned(), &nodes).unwrap_err();
    assert_eq!(error.kind, ErrorKind::Parse);
    assert_eq!(
        error.message,
        "doc.md:5\n\nCaused by:\n    repl example must start with a prompt"
    );
}

#[test]
fn line_pair_examples_are_collected_from_nodes_in_order() {
    let block = |info: &str, literal: &str, line: usize| DocumentNode::CodeBlock {
        info: info.to_owned(),
        literal: literal.to_owned(),
        line,
    };
    let nodes = vec![
        block("nix", "null\n", 1),
        block("nix-repl", "nix-repl> a\n\n1\n", 5),
        DocumentNode::Other,
        block("nix-repl skip", "nothing\n", 9),
        block("nix-repl", "", 12),
    ];
    let found = collect_repl(Vec::new(), &"doc.md".to_owned(), &nodes).unwrap();
    assert_eq!(found.len(), 2);
    let first = ReplExample { id: id(5), entries: ReplExampleEntries(vec![entry("a\n", "1")]) };
    assert_eq!(found[0], first);
    assert_eq!(found[1], ReplExample { id: id(12), entries: ReplExampleEntries(vec![]) });
    let nodes = vec![block("nix-repl", "a\n1\n", 3), block("nix-repl", "never read", 7)];
    let error = collect_repl(found, &"doc.md".to_owned(), &nodes).unwrap_err();
    assert_eq!(error.kind, ErrorKind::Parse);
    assert_eq!(error.message, "missing prompt LFLine(\"a\\n\")");
}

#[test]
fn documents_without_interactive_examples_are_refused() {
    let documents =
        vec![Document { path: "doc.md".to_owned(), contents: "```nix\nnull\n```\n".to_owned() }];
    let error = obtain_repl(&documents).unwrap_err();
    assert_eq!(error.kind, ErrorKind::NoExamples);
    assert_eq!(error.message, "could not find any REPL examples");
    assert_eq!(obtain_repl(&Vec::new()).unwrap_err(), RunError::no_repl_examples());
}

// The table of examples.

#[test]
fn table_holds_each_identity_once() {
    let mut table = ExamplesState::new();
    assert!(table.is_empty());
    assert!(table.insert(id(1), ExampleState::Expression(ExpressionExampleState::Pending)).is_ok());
    assert!(table.insert(id(2), ExampleState::Expression(ExpressionExampleState::Spawned)).is_ok());
    assert!(!table.is_empty());
    assert!(table.contains(&id(1)));
    assert!(!table.contains(&id(3)));
    assert!(matches!(
        table.get(&id(2)),
        Ok(ExampleState::Expression(ExpressionExampleState::Spawned))
    ));
    assert_eq!(
        table.get(&id(3)).unwrap_err().message,
        "repl session not found ExampleId(doc.md:3)"
    );
    assert!(matches!(
        table.remove(&id(1)),
        Ok(ExampleState::Expression(ExpressionExampleState::Pending))
    ));
    assert_eq!(table.remove(&id(1)).unwrap_err().kind, ErrorKind::SessionNotFound);
    assert!(table.remove(&id(2)).is_ok());
    assert!(table.is_empty());
}

#[test]
fn duplicate_insertion_fails_whatever_the_kinds() {
    let states = || {
        vec![
            ExampleState::Expression(ExpressionExampleState::Pending),
            ExampleState::Repl(ReplExampleState::new(ReplExample {
                id: id(1),
                entries: ReplExampleEntries(vec![entry("a\n", "1")]),
            })),
        ]
    };
    for first in states() {
        for second in states() {
            let mut table = ExamplesState::new();
            assert!(table.insert(id(1), first_copy(&first)).is_ok());
            let error = table.insert(id(1), second).unwrap_err();
            assert_eq!(error.kind, ErrorKind::DuplicateId);
            assert_eq!(error.message, "duplicate session id ExampleId(doc.md:1)");
            assert!(table.contains(&id(1)));
        }
    }
}

fn first_copy(state: &ExampleState) -> ExampleState {
    match state {
        ExampleState::Expression(state) => ExampleState::Expression(*state),
        ExampleState::Repl(state) => {
            ExampleState::Repl(ReplExampleState::new(state.example.clone()))
        }
    }
}

#[test]
fn table_hands_out_examples_by_kind() {
    let mut table = ExamplesState::new();
    table.insert(id(1), ExampleState::Expression(ExpressionExampleState::Pending)).unwrap();
    table
        .insert(
            id(2),
            ExampleState::Repl(ReplExampleState::new(ReplExample {
                id: id(2),
                entries: ReplExampleEntries(vec![]),
            })),
        )
        .unwrap();
    assert_eq!(table.take_repl(&id(1)).unwrap_err().message, "expected repl example state");
    assert_eq!(
        table.take_expression(&id(2)).unwrap_err().message,
        "expected expression example state"
    );
    assert_eq!(table.take_repl(&id(3)).unwrap_err().kind, ErrorKind::SessionNotFound);
    assert_eq!(table.take_expression(&id(3)).unwrap_err().kind, ErrorKind::SessionNotFound);
    // a refusal leaves the table as it was
    assert!(table.contains(&id(1)) && table.contains(&id(2)));
    assert_eq!(table.take_expression(&id(1)).unwrap(), ExpressionExampleState::Pending);
    assert_eq!(table.take_repl(&id(2)).unwrap().example.id, id(2));
    assert!(table.is_empty());
}

// The protocol of one session.

#[test]
fn expectation_follows_the_protocol() {
    let start = ReplSessionExpecting::ClearlineBeforeInitialPrompt {
        cl_progress: ClearLineProgress::new(),
    };
    let (next, outcome) = start.read(&id(1), b'\r');
    assert_eq!(outcome, ReadOutcome::Waiting);
    let (next, _) = next.read(&id(1), 0x1b);
    let (next, _) = next.read(&id(1), b'[');
    let (_, outcome) = next.read(&id(1), b'K');
    assert_eq!(outcome, ReadOutcome::Due);

    let result = ReplSessionExpecting::ClearLineBeforeResult {
        cl_progress: ClearLineProgress::new(),
        expected_result: ExpectedResult("2".to_owned()),
    };
    let mut expecting = result;
    for byte in CLEAR_LINE {
        let (next, outcome) = expecting.read(&id(1), *byte);
        assert_eq!(outcome, ReadOutcome::Waiting);
        expecting = next;
    }
    assert!(matches!(
        &expecting,
        ReplSessionExpecting::ResultAndClearlineBeforeNextPrompt { acc, .. } if acc.is_empty()
    ));
    for byte in b"2\r\n\r\x1b[" {
        let (next, outcome) = expecting.read(&id(1), *byte);
        assert_eq!(outcome, ReadOutcome::Waiting);
        expecting = next;
    }
    let (_, outcome) = expecting.read(&id(1), b'K');
    assert_eq!(outcome, ReadOutcome::Due);
}

#[test]
fn unexpected_byte_is_passed_over_to_the_end_of_its_line() {
    let start = ReplSessionExpecting::ClearlineBeforeInitialPrompt {
        cl_progress: ClearLineProgress::new(),
    };
    let (mut expecting, outcome) = start.read(&id(1), b'W');
    assert_eq!(outcome, ReadOutcome::Waiting);
    assert!(matches!(expecting, ReplSessionExpecting::UnexpectedLine));
    for byte in b"elcome to Nix\r\x1b[K" {
        let (next, outcome) = expecting.read(&id(1), *byte);
        assert_eq!(outcome, ReadOutcome::Waiting);
        assert!(matches!(next, ReplSessionExpecting::UnexpectedLine));
        expecting = next;
    }
    let (expecting, outcome) = expecting.read(&id(1), b'\n');
    assert_eq!(outcome, ReadOutcome::Waiting);
    assert!(matches!(
        expecting,
        ReplSessionExpecting::ClearlineBeforeInitialPrompt { cl_progress }
            if cl_progress.matched() == 0
    ));
    // a mismatch in the middle of the sequence, and before a result, does the same
    let (mid, _) = expecting.read(&id(1), b'\r');
    let (mid, outcome) = mid.read(&id(1), b'\r');
    assert_eq!(outcome, ReadOutcome::Waiting);
    assert!(matches!(mid, ReplSessionExpecting::UnexpectedLine));
    let before_result = ReplSessionExpecting::ClearLineBeforeResult {
        cl_progress: ClearLineProgress::new(),
        expected_result: ExpectedResult("2".to_owned()),
    };
    let (lost, outcome) = before_result.read(&id(1), b'2');
    assert_eq!(outcome, ReadOutcome::Waiting);
    assert!(matches!(lost, ReplSessionExpecting::UnexpectedLine));
}

#[test]
fn live_session_takes_its_exchanges_from_the_front() {
    let entries = ReplExampleEntries(vec![entry("a\n", "1"), entry("b\n", "2")]);
    let mut live = ReplSessionLive::new(entries);
    assert_eq!(live.remaining(), 2);
    assert!(matches!(
        live.expecting(),
        ReplSessionExpecting::ClearlineBeforeInitialPrompt { cl_progress }
            if cl_progress.matched() == 0
    ));
    assert_eq!(live.next(), Some(entry("a\n", "1")));
    let (live, turn) = live.advance();
    assert_eq!(turn, SessionTurn::Query(ReplQuery::new("b\n".parse().unwrap())));
    assert_eq!(live.remaining(), 0);
    assert!(matches!(
        live.expecting(),
        ReplSessionExpecting::ClearLineBeforeResult { expected_result, .. }
            if expected_result.as_str() == "2"
    ));
    let (mut live, turn) = live.advance();
    assert_eq!(turn, SessionTurn::End);
    assert_eq!(live.next(), None);
}

#[test]
fn session_reads_bytes_to_queries_and_its_end() {
    let mut live = ReplSessionLive::new(ReplExampleEntries(vec![entry("1 + 1\n", "2")]));
    let mut turns = Vec::new();
    for byte in b"\r\x1b[K\r\x1b[K2\r\x1b[K" {
        let (next, turn) = live.read(&id(1), *byte);
        live = next;
        if turn != SessionTurn::Waiting {
            turns.push(turn);
        }
    }
    assert_eq!(
        turns,
        vec![SessionTurn::Query(ReplQuery::new("1 + 1\n".parse().unwrap())), SessionTurn::End]
    );
}

#[test]
fn session_state_is_live_or_not() {
    let entries = ReplExampleEntries(vec![entry("a\n", "1")]);
    let mut state = ReplSessionState::Live(ReplSessionLive::new(entries));
    let live = state.live_mut().unwrap();
    assert_eq!(live.next(), Some(entry("a\n", "1")));
    assert_eq!(state.live_mut().unwrap().remaining(), 0);
    for mut state in [ReplSessionState::Pending, ReplSessionState::Killing] {
        let error = state.live_mut().unwrap_err();
        assert_eq!(error.kind, ErrorKind::NotLive);
        assert_eq!(error.message, "session not live");
    }
}

// The reducer.

#[test]
fn interleaved_prompt_and_result_pass() {
    // the text of the example, as the document shows it
    let entries = ReplExampleEntries::from_line_pairs("nix-repl> 1 + 1\n\n2\n").unwrap();
    assert_eq!(entries.0, vec![entry("1 + 1\n", "2")]);
    // the bytes of the session, clear-line sequences around the result
    let mut state = live(1, entries.0);
    assert_eq!(feed(&mut state, 1, CLEAR_LINE), vec![query_command(1, "1 + 1\n")]);
    assert_eq!(feed(&mut state, 1, b"\r\x1b[K2\r\x1b[K"), passed(1));
    assert_eq!(state.pending_eprintlns(), 1);
    assert_eq!(state.event(InputEvent::ReplEvent(ReplEvent::Kill(Ok(id(1))))), vec![]);
    assert!(state.examples().is_empty());
    assert_eq!(state.event(InputEvent::Eprintlned), vec![OutputEvent::Done(Ok(()))]);
    assert!(state.error().is_none());
}

#[test]
fn mirrored_streams_pass() {
    let results = ["2", "", "\"ab\"", "{\n  a = 1;\n}", "h\u{e9}llo", "  indented"];
    let entries: Vec<ReplEntry> =
        results.iter().map(|result| entry("query\n", result)).collect();
    let mut state = live(7, entries);
    let mut outputs = feed(&mut state, 7, CLEAR_LINE);
    for result in results {
        outputs.extend(feed(&mut state, 7, CLEAR_LINE));
        outputs.extend(feed(&mut state, 7, result.as_bytes()));
        outputs.extend(feed(&mut state, 7, CLEAR_LINE));
    }
    let mut expected: Vec<OutputEvent> =
        results.iter().map(|_| query_command(7, "query\n")).collect();
    expected.extend(passed(7));
    assert_eq!(outputs, expected);
    assert!(state.error().is_none());
    assert_eq!(state.pending_eprintlns(), 1);
}

#[test]
fn example_without_exchanges_passes_at_the_first_prompt() {
    let mut state = live(1, vec![]);
    assert_eq!(feed(&mut state, 1, CLEAR_LINE), passed(1));
}

#[test]
fn actual_and_expected_are_shown_in_that_order() {
    let mut state = live(1, vec![entry("1 + 2\n", "2")]);
    assert_eq!(feed(&mut state, 1, CLEAR_LINE), vec![query_command(1, "1 + 2\n")]);
    let outputs = feed(&mut state, 1, b"\r\x1b[K\x1b[36;1m3\x1b[0m\r\n\r\x1b[K");
    let failure = RunError {
        kind: ErrorKind::ResultMismatch,
        message: "doc.md:1\n\nActual:\n\n```\n3\n```\n\nExpected:\n\n```\n2\n```".to_owned(),
    };
    assert_eq!(outputs, vec![OutputEvent::Done(Err(failure.clone()))]);
    assert_eq!(state.error(), &Some(failure));
    let message = &state.error().as_ref().unwrap().message;
    assert!(message.find("Actual:").unwrap() < message.find("3").unwrap());
    assert!(message.find("3").unwrap() < message.find("Expected:").unwrap());
    assert!(message.find("Expected:").unwrap() < message.rfind("2").unwrap());
}

#[test]
fn result_must_match_exactly() {
    for shown in ["2 ", " 2", "2\n\n", "22", "", "\n2"] {
        let mut state = live(1, vec![entry("1 + 1\n", "2")]);
        feed(&mut state, 1, CLEAR_LINE);
        feed(&mut state, 1, CLEAR_LINE);
        feed(&mut state, 1, shown.as_bytes());
        let outputs = feed(&mut state, 1, CLEAR_LINE);
        assert_eq!(outputs.len(), 1);
        let OutputEvent::Done(Err(error)) = &outputs[0] else {
            panic!("{shown:?} is taken for the expected result");
        };
        assert_eq!(error.kind, ErrorKind::ResultMismatch);
    }
    for shown in ["2", "2\n", "2\r\n", "\x1b[1m2\x1b[0m", "\r2"] {
        let mut state = live(1, vec![entry("1 + 1\n", "2")]);
        feed(&mut state, 1, CLEAR_LINE);
        feed(&mut state, 1, CLEAR_LINE);
        feed(&mut state, 1, shown.as_bytes());
        assert_eq!(feed(&mut state, 1, CLEAR_LINE), passed(1));
    }
}

#[test]
fn shown_text_is_judged_character_for_character() {
    let expected = ExpectedResult("2".to_owned());
    assert_eq!(judge(&id(1), "2", &expected), ReadOutcome::Due);
    assert_eq!(
        judge(&id(1), "3", &expected),
        ReadOutcome::Failed(RunError::result_mismatch(&id(1), "3", "2"))
    );
    assert_eq!(
        judge(&id(1), "", &expected),
        ReadOutcome::Failed(RunError::result_mismatch(&id(1), "", "2"))
    );
    assert_eq!(judge(&id(1), "h\u{e9}", &ExpectedResult("h\u{e9}".to_owned())), ReadOutcome::Due);
    assert!(matches!(
        judge(&id(1), "he\u{301}", &ExpectedResult("h\u{e9}".to_owned())),
        ReadOutcome::Failed(error) if error.kind == ErrorKind::ResultMismatch
    ));
}

#[test]
fn character_cut_off_by_the_next_prompt_is_not_shown() {
    let mut state = live(1, vec![entry("1 + 1\n", "2")]);
    feed(&mut state, 1, CLEAR_LINE);
    feed(&mut state, 1, CLEAR_LINE);
    // the first two bytes of a character of three
    assert_eq!(feed(&mut state, 1, b"2\xe2\x82\r\x1b[K"), passed(1));
}

#[test]
fn expression_that_exits_with_failure_fails_the_run() {
    let mut state = State::new();
    let example = ExpressionExample::new(id(3), "assert false; null".to_owned());
    assert_eq!(
        state.event(InputEvent::Example(Example::Expression(example.clone()))),
        vec![OutputEvent::ExpressionCommand(EvaluateExpression(example))]
    );
    assert_eq!(state.event(InputEvent::ExpressionEvent(ExpressionEvent::Spawn(Ok(id(3))))), vec![]);
    assert!(matches!(
        state.examples().get(&id(3)),
        Ok(ExampleState::Expression(ExpressionExampleState::Spawned))
    ));
    let output = ExpressionOutput {
        success: false,
        stdout: b"ignored".to_vec(),
        stderr: b"error: assertion 'false' failed".to_vec(),
    };
    let ended = ExpressionEvent::Output(Ok((id(3), output)));
    let outputs = state.event(InputEvent::ExpressionEvent(ended));
    let failure = RunError {
        kind: ErrorKind::ExpressionFailed,
        message: "doc.md:3\nerror: assertion 'false' failed".to_owned(),
    };
    assert_eq!(outputs, vec![OutputEvent::Done(Err(failure))]);
}

#[test]
fn standard_error_that_is_no_text_is_shown_with_replacements() {
    let mut state = State::new();
    state.event(InputEvent::Example(expression(3, "x")));
    let output =
        ExpressionOutput { success: false, stdout: Vec::new(), stderr: b"bad \xff byte".to_vec() };
    let ended = ExpressionEvent::Output(Ok((id(3), output)));
    let outputs = state.event(InputEvent::ExpressionEvent(ended));
    let OutputEvent::Done(Err(error)) = &outputs[0] else {
        panic!();
    };
    assert_eq!(error.message, "doc.md:3\nbad \u{fffd} byte");
}

#[test]
fn expression_that_exits_with_success_passes() {
    let mut state = State::new();
    state.event(InputEvent::Example(expression(1, "null")));
    state.event(InputEvent::Example(expression(5, "0")));
    let output = || ExpressionOutput {
        success: true,
        stdout: b"null".to_vec(),
        stderr: b"warning".to_vec(),
    };
    assert_eq!(
        state.event(InputEvent::ExpressionEvent(ExpressionEvent::Output(Ok((id(5), output()))))),
        vec![OutputEvent::Eprintln("PASS: doc.md:5".to_owned())]
    );
    assert_eq!(State::fmt_pass(&id(5)), "PASS: doc.md:5");
    assert!(!state.examples().contains(&id(5)));
    assert_eq!(state.event(InputEvent::Eprintlned), vec![]);
    assert_eq!(
        state.event(InputEvent::ExpressionEvent(ExpressionEvent::Output(Ok((id(1), output()))))),
        vec![OutputEvent::Eprintln("PASS: doc.md:1".to_owned())]
    );
    assert_eq!(state.event(InputEvent::Eprintlned), vec![OutputEvent::Done(Ok(()))]);
}

#[test]
fn no_examples_fail_the_run_before_anything_is_spawned() {
    let error = State::start(Vec::new()).unwrap_err();
    assert_eq!(error, RunError::no_examples());
    assert_eq!(error.kind, ErrorKind::NoExamples);
    assert_eq!(error.message(), "could not find any examples");
}

#[test]
fn start_hands_every_example_in() {
    let (state, outputs) =
        State::start(vec![repl(1, vec![entry("a\n", "1")]), expression(5, "null"), repl(9, vec![])])
            .unwrap();
    assert_eq!(
        outputs,
        vec![
            OutputEvent::ReplCommand(ReplCommand::Spawn(id(1))),
            OutputEvent::ExpressionCommand(EvaluateExpression(ExpressionExample::new(
                id(5),
                "null".to_owned()
            ))),
            OutputEvent::ReplCommand(ReplCommand::Spawn(id(9))),
        ]
    );
    for line in [1, 5, 9] {
        assert!(state.examples().contains(&id(line)));
    }
    assert_eq!(state.pending_eprintlns(), 0);
}

#[test]
fn duplicate_identity_fails_registration_whatever_the_kinds() {
    let examples = || vec![repl(1, vec![entry("a\n", "1")]), expression(1, "null")];
    for first in examples() {
        for second in examples() {
            let mut state = State::new();
            assert_eq!(state.event(InputEvent::Example(first.clone())).len(), 1);
            let outputs = state.event(InputEvent::Example(second));
            let failure = RunError {
                kind: ErrorKind::DuplicateId,
                message: "duplicate session id ExampleId(doc.md:1)".to_owned(),
            };
            assert_eq!(outputs, vec![OutputEvent::Done(Err(failure))]);
        }
    }
    let mut state = State::new();
    assert!(state.example(expression(1, "null")).is_ok());
    assert_eq!(state.example(repl(1, vec![])).unwrap_err().kind, ErrorKind::DuplicateId);
    let started = State::start(vec![expression(1, "null"), expression(1, "null")]).unwrap();
    assert!(matches!(
        started.1.last(),
        Some(OutputEvent::Done(Err(error))) if error.kind == ErrorKind::DuplicateId
    ));
}

#[test]
fn pass_lines_are_flushed_before_the_run_fails() {
    let mut state = State::new();
    for line in [1, 2, 3, 4] {
        state.event(InputEvent::Example(expression(line, "null")));
    }
    let output =
        |success| ExpressionOutput { success, stdout: Vec::new(), stderr: b"boom".to_vec() };
    let event = |line, success| {
        InputEvent::ExpressionEvent(ExpressionEvent::Output(Ok((id(line), output(success)))))
    };
    let mut report: Vec<String> = Vec::new();
    for line in [1, 2, 3] {
        for output in state.event(event(line, true)) {
            let OutputEvent::Eprintln(line) = output else {
                panic!("nothing but a report line is due");
            };
            report.push(line);
        }
    }
    assert_eq!(state.pending_eprintlns(), 3);
    // the fourth fails while three lines wait to be written
    assert_eq!(state.event(event(4, false)), vec![]);
    assert_eq!(state.error().as_ref().unwrap().message, "doc.md:4\nboom");
    assert_eq!(state.event(InputEvent::Eprintlned), vec![]);
    assert_eq!(state.event(InputEvent::Eprintlned), vec![]);
    let failure =
        RunError { kind: ErrorKind::ExpressionFailed, message: "doc.md:4\nboom".to_owned() };
    assert_eq!(state.event(InputEvent::Eprintlned), vec![OutputEvent::Done(Err(failure))]);
    assert_eq!(report, vec!["PASS: doc.md:1", "PASS: doc.md:2", "PASS: doc.md:3"]);
}

#[test]
fn first_error_stays() {
    let mut state = State::new();
    state.event(InputEvent::Example(expression(1, "null")));
    let output = ExpressionOutput { success: true, stdout: Vec::new(), stderr: Vec::new() };
    state.event(InputEvent::ExpressionEvent(ExpressionEvent::Output(Ok((id(1), output)))));
    assert_eq!(state.event(InputEvent::ReplEvent(ReplEvent::Error("first".to_owned()))), vec![]);
    assert_eq!(state.event(InputEvent::ReplEvent(ReplEvent::Error("second".to_owned()))), vec![]);
    let first = RunError { kind: ErrorKind::Driver, message: "first".to_owned() };
    assert_eq!(state.event(InputEvent::Eprintlned), vec![OutputEvent::Done(Err(first.clone()))]);
    // and every later event ends the run in the same way
    assert_eq!(
        state.event(InputEvent::ReplEvent(ReplEvent::Error("third".to_owned()))),
        vec![OutputEvent::Done(Err(first))]
    );
}

#[test]
fn driver_failures_fail_the_run_in_the_drivers_words() {
    let words = || "No such file or directory (os error 2)".to_owned();
    let events = vec![
        InputEvent::ReplEvent(ReplEvent::Spawn(Err(words()))),
        InputEvent::ReplEvent(ReplEvent::Query(
            id(1),
            ReplQuery::new("a\n".parse().unwrap()),
            Err(words()),
        )),
        InputEvent::ReplEvent(ReplEvent::Kill(Err(words()))),
        InputEvent::ReplEvent(ReplEvent::Error(words())),
        InputEvent::ExpressionEvent(ExpressionEvent::Spawn(Err(words()))),
        InputEvent::ExpressionEvent(ExpressionEvent::Output(Err(words()))),
    ];
    for event in events {
        let mut state = live(1, vec![entry("a\n", "1")]);
        let failure = RunError { kind: ErrorKind::Driver, message: words() };
        assert_eq!(state.event(event), vec![OutputEvent::Done(Err(failure))]);
    }
}

#[test]
fn events_that_name_no_fitting_example_fail_the_run() {
    let kind_of = |state: &mut State, event: InputEvent| {
        let outputs = state.event(event);
        let OutputEvent::Done(Err(error)) = &outputs[0] else {
            panic!("the run goes on");
        };
        (error.kind, error.message.clone())
    };
    let fresh = || {
        let mut state = live(1, vec![entry("a\n", "1")]);
        state.event(InputEvent::Example(expression(2, "null")));
        state.event(InputEvent::Example(repl(3, vec![])));
        state
    };
    let spawn = |line| InputEvent::ReplEvent(ReplEvent::Spawn(Ok(id(line))));
    let kill = |line| InputEvent::ReplEvent(ReplEvent::Kill(Ok(id(line))));
    let started = |line| InputEvent::ExpressionEvent(ExpressionEvent::Spawn(Ok(id(line))));
    let ended = |line| {
        InputEvent::ExpressionEvent(ExpressionEvent::Output(Ok((
            id(line),
            ExpressionOutput { success: true, stdout: Vec::new(), stderr: Vec::new() },
        ))))
    };
    let not_found = "repl session not found ExampleId(doc.md:9)".to_owned();
    assert_eq!(kind_of(&mut fresh(), spawn(9)), (ErrorKind::SessionNotFound, not_found.clone()));
    assert_eq!(kind_of(&mut fresh(), kill(9)), (ErrorKind::SessionNotFound, not_found.clone()));
    assert_eq!(
        kind_of(&mut fresh(), read(9, b'x')),
        (ErrorKind::SessionNotFound, not_found.clone())
    );
    assert_eq!(kind_of(&mut fresh(), started(9)), (ErrorKind::SessionNotFound, not_found.clone()));
    assert_eq!(kind_of(&mut fresh(), ended(9)), (ErrorKind::SessionNotFound, not_found));
    assert_eq!(
        kind_of(&mut fresh(), spawn(2)),
        (ErrorKind::WrongKind, "expected repl example state".to_owned())
    );
    assert_eq!(
        kind_of(&mut fresh(), read(2, b'x')),
        (ErrorKind::WrongKind, "expected repl example state".to_owned())
    );
    assert_eq!(
        kind_of(&mut fresh(), started(1)),
        (ErrorKind::WrongKind, "expected expression example state".to_owned())
    );
    assert_eq!(
        kind_of(&mut fresh(), spawn(1)),
        (ErrorKind::AlreadyLive, "spawned session ExampleId(doc.md:1) already live".to_owned())
    );
    assert_eq!(
        kind_of(&mut fresh(), read(3, b'x')),
        (ErrorKind::NotLive, "session not live".to_owned())
    );
}

#[test]
fn acknowledgement_without_a_line_fails_the_run() {
    let mut state = live(1, vec![entry("a\n", "1")]);
    assert_eq!(state.eprintlned().unwrap_err(), RunError::unexpected_flush());
    assert_eq!(state.pending_eprintlns(), 0);
    assert_eq!(
        state.event(InputEvent::Eprintlned),
        vec![OutputEvent::Done(Err(RunError::unexpected_flush()))]
    );
}

#[test]
fn events_of_different_sessions_interleave() {
    let mut state = State::new();
    state.event(InputEvent::Example(repl(1, vec![entry("a\n", "1")])));
    state.event(InputEvent::Example(repl(2, vec![entry("b\n", "2")])));
    state.event(InputEvent::ReplEvent(ReplEvent::Spawn(Ok(id(2)))));
    state.event(InputEvent::ReplEvent(ReplEvent::Spawn(Ok(id(1)))));
    let first = b"\r\x1b[K\r\x1b[K1\r\x1b[K";
    let second = b"\r\x1b[K\r\x1b[K2\r\x1b[K";
    let mut outputs = Vec::new();
    for (a, b) in first.iter().zip(second.iter()) {
        outputs.extend(state.event(read(2, *b)));
        outputs.extend(state.event(read(1, *a)));
    }
    let mut expected = vec![query_command(2, "b\n"), query_command(1, "a\n")];
    expected.extend(passed(2));
    expected.extend(passed(1));
    assert_eq!(outputs, expected);
    assert_eq!(state.pending_eprintlns(), 2);
    assert_eq!(
        state.event(InputEvent::ReplEvent(ReplEvent::Query(
            id(1),
            ReplQuery::new("a\n".parse().unwrap()),
            Ok(())
        ))),
        vec![]
    );
}

// The drivers' bookkeeping.

#[test]
fn session_driver_knows_which_examples_have_an_interpreter() {
    let query = || ReplQuery::new("a\n".parse().unwrap());
    let mut driver = ReplDriver::new();
    assert!(driver.sessions().is_empty());
    assert_eq!(driver.command(ReplCommand::Spawn(id(1))), DriverTask::Spawn(id(1)));
    assert!(driver.sessions().is_empty());
    assert_eq!(driver.spawned(id(1), Ok(())), ReplEvent::Spawn(Ok(id(1))));
    assert_eq!(driver.spawned(id(2), Ok(())), ReplEvent::Spawn(Ok(id(2))));
    assert_eq!(driver.spawned(id(1), Ok(())), ReplEvent::Spawn(Ok(id(1))));
    assert_eq!(driver.sessions(), &vec![id(1), id(2)]);
    assert_eq!(
        driver.spawned(id(3), Err("No such file or directory (os error 2)".to_owned())),
        ReplEvent::Spawn(Err("No such file or directory (os error 2)".to_owned()))
    );
    assert_eq!(driver.sessions(), &vec![id(1), id(2)]);
    assert_eq!(
        driver.command(ReplCommand::Query(id(2), query())),
        DriverTask::Write(id(2), query())
    );
    assert_eq!(driver.command(ReplCommand::Kill(id(1))), DriverTask::Release(id(1)));
    assert_eq!(driver.sessions(), &vec![id(2)]);
    assert_eq!(driver.spawn(id(4)), DriverTask::Spawn(id(4)));
    assert_eq!(driver.kill(id(2)), DriverTask::Release(id(2)));
    assert!(driver.sessions().is_empty());
}

#[test]
fn session_driver_refuses_commands_for_examples_without_an_interpreter() {
    let query = || ReplQuery::new("a\n".parse().unwrap());
    let mut driver = ReplDriver::new();
    driver.spawned(id(1), Ok(()));
    assert_eq!(
        driver.command(ReplCommand::Query(id(2), query())),
        DriverTask::Send(ReplEvent::Query(
            id(2),
            query(),
            Err("no pty for ExampleId(doc.md:2)".to_owned())
        ))
    );
    assert_eq!(
        driver.command(ReplCommand::Kill(id(2))),
        DriverTask::Send(ReplEvent::Kill(Err("no session ExampleId(doc.md:2) to kill".to_owned())))
    );
    assert_eq!(driver.sessions(), &vec![id(1)]);
    driver.kill(id(1));
    assert_eq!(
        driver.query(id(1), query()),
        DriverTask::Send(ReplEvent::Query(
            id(1),
            query(),
            Err("no pty for ExampleId(doc.md:1)".to_owned())
        ))
    );
}

#[test]
fn session_driver_reports_what_happened() {
    let query = || ReplQuery::new("a\n".parse().unwrap());
    assert_eq!(
        ReplDriver::written(id(1), query(), Ok(())),
        ReplEvent::Query(id(1), query(), Ok(()))
    );
    assert_eq!(
        ReplDriver::written(id(1), query(), Err("Broken pipe (os error 32)".to_owned())),
        ReplEvent::Query(
            id(1),
            query(),
            Err("failed to query Broken pipe (os error 32)".to_owned())
        )
    );
    assert_eq!(ReplDriver::read(&id(1), Ok(b'x')), ReplEvent::Read(id(1), b'x'));
    assert_eq!(
        ReplDriver::read(&id(1), Err("unexpected end of file".to_owned())),
        ReplEvent::Error("unexpected end of file".to_owned())
    );
}

#[test]
fn evaluator_reports_the_start_at_once_and_the_end_later() {
    let output =
        || ExpressionOutput { success: true, stdout: b"null".to_vec(), stderr: Vec::new() };
    let mut driver = ExpressionDriver::new();
    let (expression, event) = driver.spawn_nix(ExpressionExample::new(id(1), "null".to_owned()));
    assert_eq!(expression, "null");
    assert_eq!(event, ExpressionEvent::Spawn(Ok(id(1))));
    driver.spawn_nix(ExpressionExample::new(id(2), "0".to_owned()));
    driver.spawn_nix(ExpressionExample::new(id(1), "1".to_owned()));
    assert_eq!(driver.running(), &vec![id(1), id(2), id(1)]);
    assert_eq!(
        driver.finished(id(1), Ok(output())),
        ExpressionEvent::Output(Ok((id(1), output())))
    );
    assert_eq!(driver.running(), &vec![id(2), id(1)]);
    assert_eq!(
        driver.finished(id(1), Err("interrupted".to_owned())),
        ExpressionEvent::Output(Err("interrupted".to_owned()))
    );
    assert_eq!(driver.running(), &vec![id(2)]);
    driver.finished(id(3), Ok(output()));
    assert_eq!(driver.running(), &vec![id(2)]);
}

#[test]
fn any_interleaving_of_two_sessions_passes() {
    let first: Vec<u8> = b"\r\x1b[K\r\x1b[K1\r\x1b[K\r\x1b[Ktwo\nlines\r\x1b[K".to_vec();
    let second: Vec<u8> = b"\r\x1b[K\r\x1b[K\r\x1b[K".to_vec();
    let mut seed: u64 = 0x2545_f491_4f6c_dd1d;
    for _ in 0..200 {
        let mut state = State::new();
        let entries = vec![entry("a\n", "1"), entry("b\n", "two\nlines")];
        state.event(InputEvent::Example(repl(1, entries)));
        state.event(InputEvent::Example(repl(2, vec![entry("c = 1\n", "")])));
        state.event(InputEvent::ReplEvent(ReplEvent::Spawn(Ok(id(1)))));
        state.event(InputEvent::ReplEvent(ReplEvent::Spawn(Ok(id(2)))));
        let (mut i, mut j) = (0, 0);
        let mut of_first = Vec::new();
        let mut of_second = Vec::new();
        while i < first.len() || j < second.len() {
            seed = seed.wrapping_mul(6364136223846793005).wrapping_add(1442695040888963407);
            let take_first = j == second.len() || (i < first.len() && (seed >> 33) % 2 == 0);
            if take_first {
                of_first.extend(state.event(read(1, first[i])));
                i += 1;
            } else {
                of_second.extend(state.event(read(2, second[j])));
                j += 1;
            }
        }
        let mut expected = vec![query_command(1, "a\n"), query_command(1, "b\n")];
        expected.extend(passed(1));
        assert_eq!(of_first, expected);
        let mut expected = vec![query_command(2, "c = 1\n")];
        expected.extend(passed(2));
        assert_eq!(of_second, expected);
        assert_eq!(state.pending_eprintlns(), 2);
        assert!(state.error().is_none());
    }
}

#[test]
fn identities_are_ordered_by_document_then_line() {
    let ids = [
        ExampleId::new("".to_owned(), 5),
        ExampleId::new("a.md".to_owned(), 0),
        ExampleId::new("a.md".to_owned(), 2),
        ExampleId::new("a.md".to_owned(), 10),
        ExampleId::new("a.mdx".to_owned(), 1),
        ExampleId::new("b.md".to_owned(), 1),
        ExampleId::new("docs/a.md".to_owned(), 1),
        ExampleId::new("z.md".to_owned(), 1),
        ExampleId::new("\u{e9}.md".to_owned(), 1),
        ExampleId::new("\u{ffff}.md".to_owned(), 1),
        ExampleId::new("\u{1f600}.md".to_owned(), 1),
    ];
    for (i, a) in ids.iter().enumerate() {
        for (j, b) in ids.iter().enumerate() {
            assert_eq!(a.precedes(b), i < j);
            assert_eq!(a.precedes(b), a < b);
            assert_eq!(a == b, i == j);
        }
    }
}

#[test]
fn sanitize_is_idempotent_on_many_inputs() {
    let alphabet: [u8; 32] = [
        0x1b, b'[', b']', b'K', b'm', b';', b'0', b'1', b'?', b'P', b'\\', b'X', b'^', b'_', 0x07,
        0x18, 0x1a, b'\r', b'\n', b'\t', b' ', b'a', 0x7f, 0x80, 0x85, 0x9b, 0x9c, 0xc2, 0xc3,
        0xe2, 0xf0, 0xff,
    ];
    let mut seed: u64 = 0x9e37_79b9_7f4a_7c15;
    let mut next = move || {
        seed = seed.wrapping_mul(6364136223846793005).wrapping_add(1442695040888963407);
        (seed >> 33) as usize
    };
    for _ in 0..4000 {
        let length = next() % 24;
        let input: Vec<u8> = (0..length).map(|_| alphabet[next() % alphabet.len()]).collect();
        let once = sanitize(&input);
        assert!(!once.contains(&b'\r'), "{input:?}");
        assert_eq!(sanitize(&once), once, "{input:?}");
        let text = String::from_utf8(once).expect("sanitized bytes are text");
        assert!(text.chars().all(shown), "{input:?}");
        if let Ok(written) = std::str::from_utf8(&input) {
            if !written.contains('\u{1b}') {
                assert_eq!(text, written.chars().filter(|c| shown(*c)).collect::<String>());
            }
        }
    }
}

/// Whether a terminal shows the character: a line feed, or one that is
/// neither below U+0020 nor from U+0080 to U+009F.
fn shown(c: char) -> bool {
    c == '\n' || !(c < ' ' || ('\u{80}'..='\u{9f}').contains(&c))
}

#[test]
fn text_without_an_escape_loses_its_control_characters_and_nothing_else() {
    assert_eq!(sanitize(b"a\tb\r\nc\x07d\x00"), b"ab\ncd");
    let written = "\u{85}x\u{9b}31my\u{a0}\u{7f}";
    assert_eq!(sanitize(written.as_bytes()), "x31my\u{a0}\u{7f}".as_bytes());
    assert_eq!(sanitize(b"\r\n\r\n"), b"\n\n");
    assert_eq!(observe(b"2\r\n"), b"2");
}

#[test]
fn plain_text_is_left_as_it_is() {
    let texts =
        ["", "2", "{\n  a = 1;\n}\n", "h\u{e9}llo \u{1f600} \u{fffd}\n", "tilde~ \u{7f} \u{a0}"];
    for text in texts {
        assert_eq!(sanitize(text.as_bytes()), text.as_bytes());
    }
}

#[test]
fn mirrored_streams_with_a_line_feed_behind_each_result_pass() {
    let results = ["2", "", "\"ab\"", "{\n  a = 1;\n}", "h\u{e9}llo", "ends in a line feed\n"];
    let entries: Vec<ReplEntry> =
        results.iter().map(|result| entry("query\n", result)).collect();
    let mut state = live(7, entries);
    let mut outputs = feed(&mut state, 7, CLEAR_LINE);
    for result in results {
        outputs.extend(feed(&mut state, 7, CLEAR_LINE));
        outputs.extend(feed(&mut state, 7, result.as_bytes()));
        outputs.extend(feed(&mut state, 7, b"\n"));
        outputs.extend(feed(&mut state, 7, CLEAR_LINE));
    }
    let mut expected: Vec<OutputEvent> =
        results.iter().map(|_| query_command(7, "query\n")).collect();
    expected.extend(passed(7));
    assert_eq!(outputs, expected);
    assert!(state.error().is_none());
}

#[test]
fn well_formed_standard_error_is_shown_as_it_is() {
    let mut state = State::new();
    state.event(InputEvent::Example(expression(3, "x")));
    let stderr = "error: h\u{e9}llo \u{1f600}\n".as_bytes().to_vec();
    let output = ExpressionOutput { success: false, stdout: Vec::new(), stderr };
    let ended = ExpressionEvent::Output(Ok((id(3), output)));
    let outputs = state.event(InputEvent::ExpressionEvent(ended));
    let OutputEvent::Done(Err(error)) = &outputs[0] else {
        panic!();
    };
    assert_eq!(error.message, "doc.md:3\nerror: h\u{e9}llo \u{1f600}\n");
}

#[test]
fn feeding_a_stretch_is_feeding_its_bytes_one_by_one() {
    let stream = b"\r\x1b[K\r\x1b[K1\n\r\x1b[Kjunk\r\x1b[Kmore";
    let mut at_once = live(1, vec![entry("a\n", "1"), entry("b\n", "2")]);
    let mut one_by_one = live(1, vec![entry("a\n", "1"), entry("b\n", "2")]);
    let together = at_once.feed(&id(1), stream);
    let mut apart = Vec::new();
    for byte in stream {
        apart.extend(one_by_one.event(read(1, *byte)));
    }
    assert_eq!(together, apart);
    assert_eq!(together, vec![query_command(1, "a\n"), query_command(1, "b\n")]);
    assert_eq!(at_once.error(), one_by_one.error());
    assert_eq!(at_once.feed(&id(1), b""), vec![]);
}

#[test]
fn texts_are_compared_as_they_are() {
    assert!(str_equal("", ""));
    assert!(str_equal("a\nb", "a\nb"));
    assert!(!str_equal("a", "a "));
    assert!(!str_equal("A", "a"));
}
