//! The examples of a run, and how they are found in the documents.

use crate::error::{attributed, no_examples, no_repl_examples, RunError, RunErrorView};
use crate::example_id::{ExampleId, ExampleIdView};
use crate::expression::{ExpressionExample, ExpressionExampleView};
use crate::repl::example::{
    parse_example, parse_line_pairs, ReplExample, ReplExampleEntries, ReplExampleView,
    NIX_REPL_LANG_TAG,
};
use crate::text::{pieces_view, spells, split_words, str_to_chars, words_of};
use vstd::prelude::*;
use vstd::string::*;

verus! {

/// An example as a mathematical value.
pub enum ExampleView {
    Repl(ReplExampleView),
    Expression(ExpressionExampleView),
}

/// An example: interactive, or an expression.
#[derive(Debug, PartialEq, Eq)]
pub enum Example {
    Repl(ReplExample),
    Expression(ExpressionExample),
}

impl View for Example {
    type V = ExampleView;

    open spec fn view(&self) -> ExampleView {
        match self {
            Example::Repl(example) => ExampleView::Repl(example@),
            Example::Expression(example) => ExampleView::Expression(example@),
        }
    }
}

impl Clone for Example {
    fn clone(&self) -> (copy: Self)
        ensures
            copy@ == self@,
    {
        match self {
            Example::Repl(example) => Example::Repl(example.clone()),
            Example::Expression(example) => Example::Expression(example.clone()),
        }
    }
}

/// The examples that a sequence of examples stands for.
pub open spec fn examples_view(examples: Seq<Example>) -> Seq<ExampleView> {
    examples.map_values(|example: Example| example@)
}

/// A document as a mathematical value.
pub struct DocumentView {
    pub path: Seq<char>,
    pub contents: Seq<char>,
}

/// A document: where it was found, and its text.
#[derive(Debug, PartialEq, Eq)]
pub struct Document {
    pub path: String,
    pub contents: String,
}

impl View for Document {
    type V = DocumentView;

    open spec fn view(&self) -> DocumentView {
        DocumentView { path: self.path@, contents: self.contents@ }
    }
}

/// A code block of a document as a mathematical value.
pub struct CodeBlockView {
    pub info: Seq<char>,
    pub literal: Seq<char>,
    pub line: nat,
}

/// A node of a document, as far as the examples are concerned: a code
/// block, with the info string behind its opening fence, its contents and
/// the line it starts at; or anything else.
#[derive(Debug, PartialEq, Eq)]
pub enum DocumentNode {
    CodeBlock { info: String, literal: String, line: usize },
    Other,
}

impl View for DocumentNode {
    type V = Option<CodeBlockView>;

    open spec fn view(&self) -> Option<CodeBlockView> {
        match self {
            DocumentNode::CodeBlock { info, literal, line } => Some(
                CodeBlockView { info: info@, literal: literal@, line: *line as nat },
            ),
            DocumentNode::Other => None,
        }
    }
}

/// The nodes that a sequence of nodes stands for.
pub open spec fn nodes_view(nodes: Seq<DocumentNode>) -> Seq<Option<CodeBlockView>> {
    nodes.map_values(|node: DocumentNode| node@)
}

/// The nodes of the syntax tree that `comrak::parse_document` makes of a
/// Markdown text under the default options, in document order, parents
/// before their children; of each code block its info string, its contents
/// and the line of the text it starts at.
pub uninterp spec fn markdown_nodes(contents: Seq<char>) -> Seq<Option<CodeBlockView>>;

/// Calls `comrak::parse_document` with the default options and walks the tree
/// it returns, each node once, in document order.
#[verifier::external_body]
fn parse_markdown(contents: &str) -> (nodes: Vec<DocumentNode>)
    ensures
        nodes_view(nodes@) == markdown_nodes(contents@),
{
    let arena = comrak::Arena::new();
    let root = comrak::parse_document(&arena, contents, &comrak::Options::default());
    root.descendants().map(|node| match &node.data.borrow().value {
        comrak::nodes::NodeValue::CodeBlock(block) => DocumentNode::CodeBlock {
            info: block.info.clone(),
            literal: block.literal.clone(),
            line: node.data.borrow().sourcepos.start.line,
        },
        _ => DocumentNode::Other,
    }).collect()
}

/// The kinds of example.
#[derive(Debug, Clone, Copy, PartialEq, Eq, Structural)]
pub enum ExampleKind {
    Repl,
    Expression,
}

/// The kind of example that a code block with this info string holds. The
/// first word is the tag: `nix-repl` for an interactive example, `nix` for
/// an expression. A block with another tag holds no example, nor does one
/// whose info string has further words and ends with the word `skip`.
pub open spec fn block_kind(info: Seq<char>) -> Option<ExampleKind> {
    let words = words_of(info);
    if words.len() == 0 || (words.len() > 1 && words.last() == "skip"@) {
        None
    } else if words[0] == "nix-repl"@ {
        Some(ExampleKind::Repl)
    } else if words[0] == "nix"@ {
        Some(ExampleKind::Expression)
    } else {
        None
    }
}

/// Decides what kind of example a code block with this info string holds.
pub fn classify(info: &str) -> (kind: Option<ExampleKind>)
    ensures
        kind == block_kind(info@),
{
    let chars = str_to_chars(info);
    let words = split_words(&chars);
    let n = words.len();
    proof {
        if n > 0 {
            assert(pieces_view(words@)[0] == words@[0]@);
            assert(pieces_view(words@).last() == words@[n - 1]@);
        }
    }
    if n == 0 || (n > 1 && spells(&words[n - 1], "skip")) {
        None
    } else if spells(&words[0], NIX_REPL_LANG_TAG) {
        Some(ExampleKind::Repl)
    } else if spells(&words[0], "nix") {
        Some(ExampleKind::Expression)
    } else {
        None
    }
}

/// The example that a node of the document at `path` holds, if it holds
/// one; an error in its text is attributed to it.
pub open spec fn node_example(path: Seq<char>, node: Option<CodeBlockView>) -> Option<
    Result<ExampleView, RunErrorView>,
> {
    match node {
        None => None,
        Some(block) => {
            let id = ExampleIdView { source_path: path, line: block.line };
            match block_kind(block.info) {
                None => None,
                Some(ExampleKind::Expression) => Some(
                    Ok(
                        ExampleView::Expression(
                            ExpressionExampleView { id, expression: block.literal },
                        ),
                    ),
                ),
                Some(ExampleKind::Repl) => Some(
                    match parse_example(block.literal) {
                        Ok(entries) => Ok(ExampleView::Repl(ReplExampleView { id, entries })),
                        Err(e) => Err(attributed(id, e)),
                    },
                ),
            }
        },
    }
}

/// `found`, and after them the examples that the nodes hold, in order. The
/// first example whose text is malformed decides the error.
pub open spec fn collect_nodes(
    found: Seq<ExampleView>,
    path: Seq<char>,
    nodes: Seq<Option<CodeBlockView>>,
) -> Result<Seq<ExampleView>, RunErrorView>
    decreases nodes.len(),
{
    if nodes.len() == 0 {
        Ok(found)
    } else {
        match node_example(path, nodes[0]) {
            None => collect_nodes(found, path, nodes.drop_first()),
            Some(Err(e)) => Err(e),
            Some(Ok(example)) => collect_nodes(found.push(example), path, nodes.drop_first()),
        }
    }
}

/// `found`, and after them the examples that the documents hold, document
/// by document.
pub open spec fn collect_documents(found: Seq<ExampleView>, documents: Seq<DocumentView>) -> Result<
    Seq<ExampleView>,
    RunErrorView,
>
    decreases documents.len(),
{
    if documents.len() == 0 {
        Ok(found)
    } else {
        match collect_nodes(found, documents[0].path, markdown_nodes(documents[0].contents)) {
            Err(e) => Err(e),
            Ok(found) => collect_documents(found, documents.drop_first()),
        }
    }
}

/// What a result of collecting examples stands for.
pub open spec fn examples_outcome(r: Result<Vec<Example>, RunError>) -> Result<
    Seq<ExampleView>,
    RunErrorView,
> {
    match r {
        Ok(examples) => Ok(examples_view(examples@)),
        Err(e) => Err(e@),
    }
}

/// The example that a node of the document at `path` holds.
fn read_node(path: &String, node: &DocumentNode) -> (r: Option<Result<Example, RunError>>)
    ensures
        match r {
            None => node_example(path@, node@) is None,
            Some(Ok(example)) => node_example(path@, node@) == Some(
                Ok::<ExampleView, RunErrorView>(example@),
            ),
            Some(Err(e)) => node_example(path@, node@) == Some(
                Err::<ExampleView, RunErrorView>(e@),
            ),
        },
{
    match node {
        DocumentNode::Other => None,
        DocumentNode::CodeBlock { info, literal, line } => {
            let id = ExampleId::new(path.clone(), *line);
            match classify(info.as_str()) {
                None => None,
                Some(ExampleKind::Expression) => Some(
                    Ok(Example::Expression(ExpressionExample::new(id, literal.clone()))),
                ),
                Some(ExampleKind::Repl) => match ReplExample::try_new(id.clone(), literal.clone()) {
                    Ok(example) => Some(Ok(Example::Repl(example))),
                    Err(e) => Some(Err(RunError::attributed(&id, &e))),
                },
            }
        },
    }
}

/// Adds to `found` the examples that the nodes of the document at `path`
/// hold, in order. A malformed example is an error, attributed to the
/// example.
pub fn collect(found: Vec<Example>, path: &String, nodes: &Vec<DocumentNode>) -> (r: Result<
    Vec<Example>,
    RunError,
>)
    ensures
        examples_outcome(r) == collect_nodes(examples_view(found@), path@, nodes_view(nodes@)),
{
    let mut examples = found;
    let mut n: usize = 0;
    proof {
        assert(nodes_view(nodes@).skip(0) =~= nodes_view(nodes@));
    }
    while n < nodes.len()
        invariant
            n <= nodes.len(),
            collect_nodes(examples_view(found@), path@, nodes_view(nodes@)) == collect_nodes(
                examples_view(examples@),
                path@,
                nodes_view(nodes@).skip(n as int),
            ),
        decreases nodes.len() - n,
    {
        proof {
            let rest = nodes_view(nodes@).skip(n as int);
            assert(rest[0] == nodes@[n as int]@);
            assert(rest.drop_first() =~= nodes_view(nodes@).skip(n + 1));
        }
        match read_node(path, &nodes[n]) {
            None => {},
            Some(Err(e)) => {
                return Err(e);
            },
            Some(Ok(example)) => {
                proof {
                    assert(examples_view(examples@.push(example)) =~= examples_view(
                        examples@,
                    ).push(example@));
                }
                examples.push(example);
            },
        }
        n += 1;
    }
    proof {
        assert(nodes_view(nodes@).skip(nodes.len() as int) =~= Seq::<
            Option<CodeBlockView>,
        >::empty());
    }
    Ok(examples)
}

/// The examples of the documents. A malformed example is an error,
/// attributed to the example; that there is no example is an error too.
pub open spec fn obtained(documents: Seq<DocumentView>) -> Result<Seq<ExampleView>, RunErrorView> {
    match collect_documents(Seq::empty(), documents) {
        Err(e) => Err(e),
        Ok(found) => if found.len() == 0 {
            Err(no_examples())
        } else {
            Ok(found)
        },
    }
}

/// Finds the examples in the documents: every code block whose tag marks it
/// as an example, in the order of the documents and, within a document, of
/// its text. A malformed example is an error, attributed to the example.
/// That the documents hold no example is an error.
pub fn obtain(documents: &Vec<Document>) -> (r: Result<Vec<Example>, RunError>)
    ensures
        examples_outcome(r) == obtained(documents_view(documents@)),
        r matches Ok(examples) ==> examples.len() > 0,
{
    let mut examples: Vec<Example> = Vec::new();
    let mut d: usize = 0;
    proof {
        assert(examples_view(examples@) =~= Seq::<ExampleView>::empty());
        assert(documents_view(documents@).skip(0) =~= documents_view(documents@));
    }
    while d < documents.len()
        invariant
            d <= documents.len(),
            collect_documents(Seq::empty(), documents_view(documents@)) == collect_documents(
                examples_view(examples@),
                documents_view(documents@).skip(d as int),
            ),
        decreases documents.len() - d,
    {
        let document = &documents[d];
        let nodes = parse_markdown(document.contents.as_str());
        proof {
            let left = documents_view(documents@).skip(d as int);
            assert(left[0] == document@);
            assert(left.drop_first() =~= documents_view(documents@).skip(d + 1));
        }
        examples = match collect(examples, &document.path, &nodes) {
            Err(e) => {
                return Err(e);
            },
            Ok(examples) => examples,
        };
        d += 1;
    }
    proof {
        assert(documents_view(documents@).skip(documents.len() as int) =~= Seq::<
            DocumentView,
        >::empty());
    }
    if examples.len() == 0 {
        Err(RunError::no_examples())
    } else {
        Ok(examples)
    }
}

/// The interactive example that a node of the document at `path` holds, if
/// it holds one, where the blocks show their exchanges as pairs of lines.
pub open spec fn node_line_pairs(path: Seq<char>, node: Option<CodeBlockView>) -> Option<
    Result<ReplExampleView, RunErrorView>,
> {
    match node {
        Some(block) if block_kind(block.info) == Some(ExampleKind::Repl) => Some(
            match parse_line_pairs(block.literal) {
                Ok(entries) => Ok(
                    ReplExampleView {
                        id: ExampleIdView { source_path: path, line: block.line },
                        entries,
                    },
                ),
                Err(e) => Err(e),
            },
        ),
        _ => None,
    }
}

/// `found`, and after them the interactive examples that the nodes hold as
/// pairs of lines, in order. The first malformed example decides the error.
pub open spec fn collect_line_pairs(
    found: Seq<ReplExampleView>,
    path: Seq<char>,
    nodes: Seq<Option<CodeBlockView>>,
) -> Result<Seq<ReplExampleView>, RunErrorView>
    decreases nodes.len(),
{
    if nodes.len() == 0 {
        Ok(found)
    } else {
        match node_line_pairs(path, nodes[0]) {
            None => collect_line_pairs(found, path, nodes.drop_first()),
            Some(Err(e)) => Err(e),
            Some(Ok(example)) => collect_line_pairs(found.push(example), path, nodes.drop_first()),
        }
    }
}

/// `found`, and after them the interactive examples that the documents hold
/// as pairs of lines, document by document.
pub open spec fn collect_line_pair_documents(
    found: Seq<ReplExampleView>,
    documents: Seq<DocumentView>,
) -> Result<Seq<ReplExampleView>, RunErrorView>
    decreases documents.len(),
{
    if documents.len() == 0 {
        Ok(found)
    } else {
        match collect_line_pairs(
            found,
            documents[0].path,
            markdown_nodes(documents[0].contents),
        ) {
            Err(e) => Err(e),
            Ok(found) => collect_line_pair_documents(found, documents.drop_first()),
        }
    }
}

/// The interactive examples of the documents, read as pairs of lines. That
/// there is none is an error.
pub open spec fn obtained_repl(documents: Seq<DocumentView>) -> Result<
    Seq<ReplExampleView>,
    RunErrorView,
> {
    match collect_line_pair_documents(Seq::empty(), documents) {
        Err(e) => Err(e),
        Ok(found) => if found.len() == 0 {
            Err(no_repl_examples())
        } else {
            Ok(found)
        },
    }
}

/// What a result of collecting interactive examples stands for.
pub open spec fn repl_examples_outcome(r: Result<Vec<ReplExample>, RunError>) -> Result<
    Seq<ReplExampleView>,
    RunErrorView,
> {
    match r {
        Ok(examples) => Ok(repl_examples_view(examples@)),
        Err(e) => Err(e@),
    }
}

/// Adds to `found` the interactive examples that the nodes of the document
/// at `path` hold as pairs of lines, in order.
pub fn collect_repl(found: Vec<ReplExample>, path: &String, nodes: &Vec<DocumentNode>) -> (r:
    Result<Vec<ReplExample>, RunError>)
    ensures
        repl_examples_outcome(r) == collect_line_pairs(
            repl_examples_view(found@),
            path@,
            nodes_view(nodes@),
        ),
{
    let mut examples = found;
    let mut n: usize = 0;
    proof {
        assert(nodes_view(nodes@).skip(0) =~= nodes_view(nodes@));
    }
    while n < nodes.len()
        invariant
            n <= nodes.len(),
            collect_line_pairs(repl_examples_view(found@), path@, nodes_view(nodes@))
                == collect_line_pairs(
                repl_examples_view(examples@),
                path@,
                nodes_view(nodes@).skip(n as int),
            ),
        decreases nodes.len() - n,
    {
        proof {
            let rest = nodes_view(nodes@).skip(n as int);
            assert(rest[0] == nodes@[n as int]@);
            assert(rest.drop_first() =~= nodes_view(nodes@).skip(n + 1));
        }
        match &nodes[n] {
            DocumentNode::Other => {},
            DocumentNode::CodeBlock { info, literal, line } => {
                if let Some(ExampleKind::Repl) = classify(info.as_str()) {
                    let entries = match ReplExampleEntries::from_line_pairs(literal.as_str()) {
                        Err(e) => {
                            return Err(e);
                        },
                        Ok(entries) => entries,
                    };
                    let example = ReplExample { id: ExampleId::new(path.clone(), *line), entries };
                    proof {
                        assert(repl_examples_view(examples@.push(example)) =~= repl_examples_view(
                            examples@,
                        ).push(example@));
                    }
                    examples.push(example);
                }
            },
        }
        n += 1;
    }
    proof {
        assert(nodes_view(nodes@).skip(nodes.len() as int) =~= Seq::<
            Option<CodeBlockView>,
        >::empty());
    }
    Ok(examples)
}

/// Finds the interactive examples in documents whose blocks show their
/// exchanges as pairs of lines. That there is none is an error.
pub fn obtain_repl(documents: &Vec<Document>) -> (r: Result<Vec<ReplExample>, RunError>)
    ensures
        repl_examples_outcome(r) == obtained_repl(documents_view(documents@)),
{
    let mut examples: Vec<ReplExample> = Vec::new();
    let mut d: usize = 0;
    proof {
        assert(repl_examples_view(examples@) =~= Seq::<ReplExampleView>::empty());
        assert(documents_view(documents@).skip(0) =~= documents_view(documents@));
    }
    while d < documents.len()
        invariant
            d <= documents.len(),
            collect_line_pair_documents(Seq::empty(), documents_view(documents@))
                == collect_line_pair_documents(
                repl_examples_view(examples@),
                documents_view(documents@).skip(d as int),
            ),
        decreases documents.len() - d,
    {
        let document = &documents[d];
        let nodes = parse_markdown(document.contents.as_str());
        proof {
            let left = documents_view(documents@).skip(d as int);
            assert(left[0] == document@);
            assert(left.drop_first() =~= documents_view(documents@).skip(d + 1));
        }
        examples = match collect_repl(examples, &document.path, &nodes) {
            Err(e) => {
                return Err(e);
            },
            Ok(examples) => examples,
        };
        d += 1;
    }
    proof {
        assert(documents_view(documents@).skip(documents.len() as int) =~= Seq::<
            DocumentView,
        >::empty());
    }
    if examples.len() == 0 {
        Err(RunError::no_repl_examples())
    } else {
        Ok(examples)
    }
}

/// The interactive examples that a sequence of them stands for.
pub open spec fn repl_examples_view(examples: Seq<ReplExample>) -> Seq<ReplExampleView> {
    examples.map_values(|example: ReplExample| example@)
}

/// The documents that a sequence of documents stands for.
pub open spec fn documents_view(documents: Seq<Document>) -> Seq<DocumentView> {
    documents.map_values(|document: Document| document@)
}

} // verus!
