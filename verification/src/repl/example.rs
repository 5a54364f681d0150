//! Interactive examples as the documents hold them: a sequence of queries,
//! each with the result it expects.

use crate::error::{
    example_without_prompt, line_without_prompt, query_without_end, RunError, RunErrorView,
};
use crate::example_id::{ExampleId, ExampleIdView};
use crate::repl::driver::{is_line, line_fault, prompt, LFLine, ReplQuery};
use crate::session::ExpectedResult;
use crate::text::{
    after_blank_lines, chars_to_string, copy_range, find_char, first_index, lines_of, matches_at,
    occurs_at, pieces_view, split, split_chars, split_from, split_lines, starts_with,
    str_to_chars, trim_end, trimmed_end, without_blank_lines,
};
use vstd::prelude::*;
use vstd::string::*;

verus! {

/// One exchange as a mathematical value.
pub struct EntryView {
    pub query: Seq<char>,
    pub expected_result: Seq<char>,
}

/// One exchange with the interpreter: a query, and the result it expects.
#[derive(Debug, PartialEq, Eq)]
pub struct ReplEntry {
    pub query: ReplQuery,
    pub expected_result: ExpectedResult,
}

impl View for ReplEntry {
    type V = EntryView;

    open spec fn view(&self) -> EntryView {
        EntryView { query: self.query@, expected_result: self.expected_result@ }
    }
}

impl Clone for ReplEntry {
    fn clone(&self) -> (copy: Self)
        ensures
            copy@ == self@,
    {
        ReplEntry { query: self.query.clone(), expected_result: self.expected_result.clone() }
    }
}

impl ReplEntry {
    /// The exchange of this query and this expected result.
    pub fn new(query: ReplQuery, expected_result: ExpectedResult) -> (entry: Self)
        ensures
            entry@ == (EntryView { query: query@, expected_result: expected_result@ }),
    {
        Self { query, expected_result }
    }
}

/// The exchanges that a sequence of entries stands for.
pub open spec fn entries_view(entries: Seq<ReplEntry>) -> Seq<EntryView> {
    entries.map_values(|entry: ReplEntry| entry@)
}

/// The exchanges of one interactive example, in the order in which they are
/// replayed.
#[derive(Debug, PartialEq, Eq)]
pub struct ReplExampleEntries(pub Vec<ReplEntry>);

impl View for ReplExampleEntries {
    type V = Seq<EntryView>;

    open spec fn view(&self) -> Seq<EntryView> {
        entries_view(self.0@)
    }
}

/// Copies a sequence of entries.
pub fn clone_entries(entries: &Vec<ReplEntry>) -> (copy: Vec<ReplEntry>)
    ensures
        entries_view(copy@) == entries_view(entries@),
{
    let mut copy: Vec<ReplEntry> = Vec::new();
    let mut i: usize = 0;
    while i < entries.len()
        invariant
            i <= entries.len(),
            entries_view(copy@) == entries_view(entries@).take(i as int),
        decreases entries.len() - i,
    {
        let entry = entries[i].clone();
        proof {
            assert(entries_view(copy@.push(entry)) =~= entries_view(copy@).push(entry@));
            assert(entries_view(entries@).take(i + 1) =~= entries_view(entries@).take(
                i as int,
            ).push(entries@[i as int]@));
        }
        copy.push(entry);
        i += 1;
    }
    proof {
        assert(entries_view(entries@).take(entries.len() as int) =~= entries_view(entries@));
    }
    copy
}

impl Clone for ReplExampleEntries {
    fn clone(&self) -> (copy: Self)
        ensures
            copy@ == self@,
    {
        ReplExampleEntries(clone_entries(&self.0))
    }
}

/// An interactive example as a mathematical value.
pub struct ReplExampleView {
    pub id: ExampleIdView,
    pub entries: Seq<EntryView>,
}

/// An interactive example: its identity and its exchanges.
#[derive(Debug, PartialEq, Eq)]
pub struct ReplExample {
    pub id: ExampleId,
    pub entries: ReplExampleEntries,
}

impl View for ReplExample {
    type V = ReplExampleView;

    open spec fn view(&self) -> ReplExampleView {
        ReplExampleView { id: self.id@, entries: self.entries@ }
    }
}

impl Clone for ReplExample {
    fn clone(&self) -> (copy: Self)
        ensures
            copy@ == self@,
    {
        ReplExample { id: self.id.clone(), entries: self.entries.clone() }
    }
}

/// What separates the exchanges of an example: the line feed that ends one,
/// and the prompt with which the next begins.
pub open spec fn separator() -> Seq<char> {
    "\nnix-repl> "@
}

/// One exchange of an example, read from the text between two prompts: the
/// first line is the query, and what follows, without the blank lines before
/// it and the white space at its end, is the expected result.
pub open spec fn parse_exchange(piece: Seq<char>) -> Result<EntryView, RunErrorView> {
    if !piece.contains('\n') {
        Err(query_without_end())
    } else {
        let end = choose|i: int| first_index(piece, '\n', i);
        let query = piece.take(end + 1);
        if !is_line(query, true) {
            Err(line_fault(query))
        } else {
            let shown = without_blank_lines(piece, end + 1);
            Ok(EntryView { query, expected_result: trim_end(shown) })
        }
    }
}

/// The exchanges read from the texts between the prompts, in order; the
/// first text that is no exchange decides the error.
pub open spec fn parse_exchanges(pieces: Seq<Seq<char>>) -> Result<Seq<EntryView>, RunErrorView>
    decreases pieces.len(),
{
    if pieces.len() == 0 {
        Ok(Seq::empty())
    } else {
        match parse_exchanges(pieces.drop_last()) {
            Err(e) => Err(e),
            Ok(entries) => match parse_exchange(pieces.last()) {
                Err(e) => Err(e),
                Ok(entry) => Ok(entries.push(entry)),
            },
        }
    }
}

/// The exchanges of an interactive example, read from its text: the text
/// begins with the prompt, and each further prompt at the start of a line
/// begins a new exchange.
pub open spec fn parse_example(text: Seq<char>) -> Result<Seq<EntryView>, RunErrorView> {
    if !starts_with(text, prompt()) {
        Err(example_without_prompt())
    } else {
        parse_exchanges(split(text.skip(prompt().len() as int), separator()))
    }
}

/// What a result of reading one exchange stands for.
pub open spec fn entry_outcome(r: Result<ReplEntry, RunError>) -> Result<EntryView, RunErrorView> {
    match r {
        Ok(entry) => Ok(entry@),
        Err(e) => Err(e@),
    }
}

/// What a result of reading an example's exchanges stands for.
pub open spec fn entries_outcome(r: Result<ReplExampleEntries, RunError>) -> Result<
    Seq<EntryView>,
    RunErrorView,
> {
    match r {
        Ok(entries) => Ok(entries@),
        Err(e) => Err(e@),
    }
}

/// Reads one exchange from the text between two prompts.
fn read_exchange(piece: &Vec<char>) -> (r: Result<ReplEntry, RunError>)
    ensures
        entry_outcome(r) == parse_exchange(piece@),
{
    let end = match find_char(piece, '\n') {
        None => {
            return Err(RunError::query_without_end());
        },
        Some(end) => end,
    };
    assert(end < piece.len());
    let query = chars_to_string(piece, 0, end + 1);
    proof {
        assert(piece@.take(end + 1) =~= piece@.subrange(0, end + 1));
    }
    let query = match LFLine::try_from(query) {
        Err(e) => {
            return Err(e);
        },
        Ok(line) => ReplQuery::new(line),
    };
    let from = after_blank_lines(piece, end + 1);
    let to = trimmed_end(piece, from);
    let expected_result = ExpectedResult(chars_to_string(piece, from, to));
    Ok(ReplEntry::new(query, expected_result))
}

impl ReplExampleEntries {
    /// Reads the exchanges of an interactive example from its text. There is
    /// at least one.
    pub fn from_str(s: &str) -> (r: Result<Self, RunError>)
        ensures
            entries_outcome(r) == parse_example(s@),
            r matches Ok(entries) ==> entries@.len() > 0,
    {
        let chars = str_to_chars(s);
        let marker = str_to_chars("nix-repl> ");
        let divider = str_to_chars("\nnix-repl> ");
        proof {
            reveal_strlit("nix-repl> ");
            reveal_strlit("\nnix-repl> ");
        }
        if chars.len() < marker.len() {
            return Err(RunError::example_without_prompt());
        }
        proof {
            assert(chars@.take(prompt().len() as int) =~= chars@.subrange(
                0,
                0 + marker@.len() as int,
            ));
        }
        if !matches_at(&chars, &marker, 0) {
            return Err(RunError::example_without_prompt());
        }
        let rest = copy_range(&chars, marker.len(), chars.len());
        proof {
            assert(rest@ =~= s@.skip(prompt().len() as int));
        }
        let pieces = split_chars(&rest, &divider);
        let mut entries: Vec<ReplEntry> = Vec::new();
        let mut i: usize = 0;
        proof {
            assert(pieces_view(pieces@).take(0) =~= Seq::<Seq<char>>::empty());
            assert(entries_view(entries@) =~= Seq::<EntryView>::empty());
        }
        while i < pieces.len()
            invariant
                i <= pieces.len(),
                parse_example(s@) == parse_exchanges(pieces_view(pieces@)),
                parse_exchanges(pieces_view(pieces@).take(i as int)) == Ok::<
                    Seq<EntryView>,
                    RunErrorView,
                >(entries_view(entries@)),
            decreases pieces.len() - i,
        {
            proof {
                let done = pieces_view(pieces@).take(i + 1);
                assert(done.drop_last() =~= pieces_view(pieces@).take(i as int));
                assert(done.last() == pieces@[i as int]@);
            }
            match read_exchange(&pieces[i]) {
                Err(e) => {
                    proof {
                        let done = pieces_view(pieces@).take(i + 1);
                        assert(parse_exchanges(done) == Err::<Seq<EntryView>, RunErrorView>(e@));
                        lemma_parse_exchanges_error(pieces_view(pieces@), i + 1);
                    }
                    return Err(e);
                },
                Ok(entry) => {
                    proof {
                        let done = pieces_view(pieces@).take(i + 1);
                        assert(entries_view(entries@.push(entry)) =~= entries_view(entries@).push(
                            entry@,
                        ));
                        assert(parse_exchanges(done) == Ok::<Seq<EntryView>, RunErrorView>(
                            entries_view(entries@).push(entry@),
                        ));
                    }
                    entries.push(entry);
                },
            }
            i += 1;
        }
        proof {
            assert(pieces_view(pieces@).take(pieces.len() as int) =~= pieces_view(pieces@));
            lemma_parsed_example_is_well_formed(s@);
        }
        Ok(ReplExampleEntries(entries))
    }

    /// The exchanges.
    pub fn as_vec(&self) -> (entries: &Vec<ReplEntry>)
        ensures
            entries_view(entries@) == self@,
    {
        &self.0
    }
}

/// Splitting gives at least one piece.
proof fn lemma_split_is_not_empty(s: Seq<char>, pattern: Seq<char>, start: int, at: int)
    ensures
        split_from(s, pattern, start, at).len() > 0,
    decreases s.len() - at,
{
    if pattern.len() == 0 || at < 0 || at + pattern.len() > s.len() {
    } else if occurs_at(s, pattern, at) {
    } else {
        lemma_split_is_not_empty(s, pattern, start, at + 1);
    }
}

/// The exchanges that are read from texts are as many as the texts, each
/// read from its own.
proof fn lemma_parse_exchanges_each(pieces: Seq<Seq<char>>)
    requires
        parse_exchanges(pieces) is Ok,
    ensures
        parse_exchanges(pieces)->Ok_0.len() == pieces.len(),
        forall|i: int|
            0 <= i < pieces.len() ==> parse_exchange(#[trigger] pieces[i]) == Ok::<
                EntryView,
                RunErrorView,
            >(parse_exchanges(pieces)->Ok_0[i]),
    decreases pieces.len(),
{
    if pieces.len() > 0 {
        lemma_parse_exchanges_each(pieces.drop_last());
        assert forall|i: int| 0 <= i < pieces.len() implies parse_exchange(#[trigger] pieces[i])
            == Ok::<EntryView, RunErrorView>(parse_exchanges(pieces)->Ok_0[i]) by {
            if i < pieces.len() - 1 {
                assert(pieces.drop_last()[i] == pieces[i]);
            }
        }
    }
}

/// An interactive example that is read from a text holds at least one
/// exchange, and each of its queries is a single line of input.
pub proof fn lemma_parsed_example_is_well_formed(text: Seq<char>)
    requires
        parse_example(text) is Ok,
    ensures
        parse_example(text)->Ok_0.len() > 0,
        forall|i: int|
            0 <= i < parse_example(text)->Ok_0.len() ==> is_line(
                (#[trigger] parse_example(text)->Ok_0[i]).query,
                true,
            ),
{
    let pieces = split(text.skip(prompt().len() as int), separator());
    lemma_split_is_not_empty(text.skip(prompt().len() as int), separator(), 0, 0);
    lemma_parse_exchanges_each(pieces);
    let entries = parse_example(text)->Ok_0;
    assert forall|i: int| 0 <= i < entries.len() implies is_line(
        (#[trigger] entries[i]).query,
        true,
    ) by {
        assert(parse_exchange(pieces[i]) == Ok::<EntryView, RunErrorView>(entries[i]));
    }
}

/// An error in reading the first texts is the error of reading them all.
proof fn lemma_parse_exchanges_error(pieces: Seq<Seq<char>>, n: int)
    requires
        0 <= n <= pieces.len(),
        parse_exchanges(pieces.take(n)) is Err,
    ensures
        parse_exchanges(pieces) == parse_exchanges(pieces.take(n)),
    decreases pieces.len() - n,
{
    if n == pieces.len() {
        assert(pieces.take(n) =~= pieces);
    } else {
        assert(pieces.take(n + 1).drop_last() =~= pieces.take(n));
        lemma_parse_exchanges_error(pieces, n + 1);
    }
}

impl std::str::FromStr for ReplExampleEntries {
    type Err = RunError;

    /// Reads the exchanges of an interactive example from its text. There is
    /// at least one.
    fn from_str(s: &str) -> (r: Result<Self, RunError>)
        ensures
            entries_outcome(r) == parse_example(s@),
            r matches Ok(entries) ==> entries@.len() > 0,
    {
        ReplExampleEntries::from_str(s)
    }
}

/// What a result of reading an example stands for.
pub open spec fn example_outcome(r: Result<ReplExample, RunError>) -> Result<
    ReplExampleView,
    RunErrorView,
> {
    match r {
        Ok(example) => Ok(example@),
        Err(e) => Err(e@),
    }
}

impl ReplExample {
    /// The interactive example with identity `id` whose text is `contents`.
    pub fn try_new(id: ExampleId, contents: String) -> (r: Result<Self, RunError>)
        ensures
            example_outcome(r) == match parse_example(contents@) {
                Ok(entries) => Ok(ReplExampleView { id: id@, entries }),
                Err(e) => Err(e),
            },
    {
        match ReplExampleEntries::from_str(contents.as_str()) {
            Ok(entries) => Ok(Self { id, entries }),
            Err(e) => Err(e),
        }
    }
}

/// The exchange that two lines of an example show: the first is the query
/// behind its prompt, the second the expected result with the line feed
/// that ends it.
pub open spec fn pair_exchange(query: Seq<char>, response: Seq<char>) -> Result<
    EntryView,
    RunErrorView,
> {
    if starts_with(query, prompt()) {
        Ok(
            EntryView {
                query: query.skip(prompt().len() as int),
                expected_result: response.drop_last(),
            },
        )
    } else {
        Err(line_without_prompt(query))
    }
}

/// `entry` put before the exchanges that `rest` holds.
pub open spec fn and_then(entry: EntryView, rest: Result<Seq<EntryView>, RunErrorView>) -> Result<
    Seq<EntryView>,
    RunErrorView,
> {
    match rest {
        Ok(entries) => Ok(seq![entry] + entries),
        Err(e) => Err(e),
    }
}

/// The exchanges that the lines of an example show when they pair up: blank
/// lines are passed over, and of the others each two in turn are a query
/// and its result. `query` is a line that waits for its result. A last line
/// without a partner is left out. In reading order, the first line that is
/// no line of input, or the first query without a prompt, decides the error.
pub open spec fn pair_lines(lines: Seq<Seq<char>>, query: Option<Seq<char>>) -> Result<
    Seq<EntryView>,
    RunErrorView,
>
    decreases lines.len(),
{
    if lines.len() == 0 {
        Ok(Seq::empty())
    } else {
        let line = lines[0];
        let rest = lines.drop_first();
        if !is_line(line, true) {
            Err(line_fault(line))
        } else if line.len() == 1 {
            pair_lines(rest, query)
        } else {
            match query {
                None => pair_lines(rest, Some(line)),
                Some(query) => match pair_exchange(query, line) {
                    Err(e) => Err(e),
                    Ok(entry) => and_then(entry, pair_lines(rest, None)),
                },
            }
        }
    }
}

/// The exchanges of an interactive example whose text shows them as pairs
/// of lines.
pub open spec fn parse_line_pairs(text: Seq<char>) -> Result<Seq<EntryView>, RunErrorView> {
    pair_lines(lines_of(text), None)
}

/// The exchanges `done`, and after them those that `rest` holds.
spec fn followed_by(done: Seq<EntryView>, rest: Result<Seq<EntryView>, RunErrorView>) -> Result<
    Seq<EntryView>,
    RunErrorView,
> {
    match rest {
        Ok(entries) => Ok(done + entries),
        Err(e) => Err(e),
    }
}

impl ReplEntry {
    /// The exchange that two lines of an example show.
    pub fn try_from(query: LFLine, response: LFLine) -> (r: Result<Self, RunError>)
        ensures
            entry_outcome(r) == pair_exchange(query@, response@),
    {
        match ReplQuery::try_from(query) {
            Err(e) => Err(e),
            Ok(query) => Ok(Self { query, expected_result: ExpectedResult::from(response) }),
        }
    }
}

impl ReplExampleEntries {
    /// Reads the exchanges of an interactive example from a text that shows
    /// them as pairs of lines, with blank lines wherever one likes.
    pub fn from_line_pairs(s: &str) -> (r: Result<Self, RunError>)
        ensures
            entries_outcome(r) == parse_line_pairs(s@),
    {
        let chars = str_to_chars(s);
        let lines = split_lines(&chars);
        let mut entries: Vec<ReplEntry> = Vec::new();
        let mut waiting: Option<LFLine> = None;
        let mut i: usize = 0;
        proof {
            assert(pieces_view(lines@).skip(0) =~= pieces_view(lines@));
            assert(entries_view(entries@) =~= Seq::<EntryView>::empty());
            let all = pair_lines(pieces_view(lines@), None);
            assert(followed_by(Seq::empty(), all) == all) by {
                if let Ok(found) = all {
                    assert(Seq::<EntryView>::empty() + found =~= found);
                }
            }
        }
        while i < lines.len()
            invariant
                i <= lines.len(),
                parse_line_pairs(s@) == followed_by(
                    entries_view(entries@),
                    pair_lines(
                        pieces_view(lines@).skip(i as int),
                        match waiting {
                            Some(line) => Some(line@),
                            None => None,
                        },
                    ),
                ),
            decreases lines.len() - i,
        {
            proof {
                let left = pieces_view(lines@).skip(i as int);
                assert(left[0] == lines@[i as int]@);
                assert(left.drop_first() =~= pieces_view(lines@).skip(i + 1));
            }
            let text = chars_to_string(&lines[i], 0, lines[i].len());
            proof {
                assert(text@ =~= lines@[i as int]@);
            }
            let line = match LFLine::try_from(text) {
                Err(e) => {
                    return Err(e);
                },
                Ok(line) => line,
            };
            if lines[i].len() > 1 {
                match waiting {
                    None => {
                        waiting = Some(line);
                    },
                    Some(query) => {
                        let ghost rest = pair_lines(pieces_view(lines@).skip(i + 1), None);
                        match ReplEntry::try_from(query, line) {
                            Err(e) => {
                                return Err(e);
                            },
                            Ok(entry) => {
                                proof {
                                    assert(entries_view(entries@.push(entry)) =~= entries_view(
                                        entries@,
                                    ).push(entry@));
                                    if let Ok(found) = rest {
                                        assert(entries_view(entries@) + (seq![entry@] + found)
                                            =~= entries_view(entries@).push(entry@) + found);
                                    }
                                }
                                entries.push(entry);
                                waiting = None;
                            },
                        }
                    },
                }
            }
            i += 1;
        }
        proof {
            assert(entries_view(entries@) + Seq::<EntryView>::empty() =~= entries_view(entries@));
        }
        Ok(ReplExampleEntries(entries))
    }
}

/// The tag of the fenced blocks that hold interactive examples.
pub const NIX_REPL_LANG_TAG: &'static str = "nix-repl";

} // verus!
