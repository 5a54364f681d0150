//! The identity of one example: where in which document it stands.

use crate::text::{decimal, decimal_string, str_to_chars};
use vstd::prelude::*;
use vstd::std_specs::cmp::PartialEqSpecImpl;
use vstd::string::*;

verus! {

/// An example's identity as a mathematical value.
pub struct ExampleIdView {
    pub source_path: Seq<char>,
    pub line: nat,
}

/// Whether the text `a` stands before the text `b` in the order of the
/// dictionary, characters compared by their code points.
pub open spec fn text_before(a: Seq<char>, b: Seq<char>) -> bool
    decreases a.len(),
{
    if b.len() == 0 {
        false
    } else if a.len() == 0 {
        true
    } else if a[0] != b[0] {
        (a[0] as u32) < (b[0] as u32)
    } else {
        text_before(a.drop_first(), b.drop_first())
    }
}

impl ExampleIdView {
    /// The order of identities: by document, then by line.
    pub open spec fn before(self, other: ExampleIdView) -> bool {
        text_before(self.source_path, other.source_path) || (self.source_path
            == other.source_path && self.line < other.line)
    }

    /// How an identity is shown to the user: the path, a colon, the line.
    pub open spec fn display(self) -> Seq<char> {
        self.source_path + ":"@ + decimal(self.line)
    }

    /// How an identity is shown in the message of an internal error.
    pub open spec fn debug(self) -> Seq<char> {
        "ExampleId("@ + self.display() + ")"@
    }
}

/// The document an example was found in and the line it starts at. Two
/// examples are the same example exactly when both agree. Identities are
/// ordered by document, then by line.
///
/// The path of the document is compared as text, character by character:
/// two spellings of one path are two documents. Paths are to come in one
/// spelling, with no separator doubled and no component that stands for
/// the directory itself.
#[derive(Debug, Eq, PartialOrd, Ord)]
pub struct ExampleId {
    source_path: String,
    line: usize,
}

impl View for ExampleId {
    type V = ExampleIdView;

    closed spec fn view(&self) -> ExampleIdView {
        ExampleIdView { source_path: self.source_path@, line: self.line as nat }
    }
}

impl Clone for ExampleId {
    fn clone(&self) -> (copy: Self)
        ensures
            copy@ == self@,
    {
        ExampleId { source_path: self.source_path.clone(), line: self.line }
    }
}

impl PartialEq for ExampleId {
    fn eq(&self, other: &Self) -> (same: bool) {
        self.line == other.line && self.source_path == other.source_path
    }
}

impl PartialEqSpecImpl for ExampleId {
    open spec fn obeys_eq_spec() -> bool {
        true
    }

    open spec fn eq_spec(&self, other: &Self) -> bool {
        self@ == other@
    }
}

impl ExampleId {
    /// The identity of the example that starts at `line` of `source_path`. The
    /// path is taken as it is written.
    pub fn new(source_path: String, line: usize) -> (id: Self)
        ensures
            id@ == (ExampleIdView { source_path: source_path@, line: line as nat }),
    {
        ExampleId { source_path, line }
    }

    /// The document's path.
    pub fn source_path(&self) -> (path: &String)
        ensures
            path@ == self@.source_path,
    {
        &self.source_path
    }

    /// The line the example starts at.
    pub fn line(&self) -> (line: usize)
        ensures
            line == self@.line,
    {
        self.line
    }

    /// Whether this identity stands before `other`: its document does, or in
    /// the same document its line does.
    pub fn precedes(&self, other: &Self) -> (b: bool)
        ensures
            b == self@.before(other@),
    {
        let mine = str_to_chars(self.source_path.as_str());
        let theirs = str_to_chars(other.source_path.as_str());
        let mut i: usize = 0;
        proof {
            assert(mine@.skip(0) =~= mine@);
            assert(theirs@.skip(0) =~= theirs@);
        }
        while i < mine.len() && i < theirs.len() && mine[i] == theirs[i]
            invariant
                i <= mine.len(),
                i <= theirs.len(),
                mine@.take(i as int) == theirs@.take(i as int),
                text_before(mine@, theirs@) == text_before(
                    mine@.skip(i as int),
                    theirs@.skip(i as int),
                ),
            decreases mine.len() - i,
        {
            proof {
                assert(mine@.skip(i as int).drop_first() =~= mine@.skip(i + 1));
                assert(theirs@.skip(i as int).drop_first() =~= theirs@.skip(i + 1));
                assert(mine@.take(i + 1) =~= mine@.take(i as int).push(mine@[i as int]));
                assert(theirs@.take(i + 1) =~= theirs@.take(i as int).push(theirs@[i as int]));
            }
            i += 1;
        }
        if i < mine.len() && i < theirs.len() {
            proof {
                assert(mine@.take(i + 1) =~= mine@.take(i as int).push(mine@[i as int]));
                assert(mine@.take(i + 1)[i as int] != theirs@[i as int]);
            }
            (mine[i] as u32) < (theirs[i] as u32)
        } else if i < theirs.len() {
            proof {
                assert(mine@.len() != theirs@.len());
            }
            true
        } else if i < mine.len() {
            proof {
                assert(mine@.len() != theirs@.len());
            }
            false
        } else {
            proof {
                assert(mine@.take(i as int) =~= mine@);
                assert(theirs@.take(i as int) =~= theirs@);
            }
            self.line < other.line
        }
    }

    /// The identity as the report shows it, `path:line`.
    pub fn to_string(&self) -> (s: String)
        ensures
            s@ == self@.display(),
    {
        let mut s = self.source_path.clone();
        s.append(":");
        let line = decimal_string(self.line);
        s.append(line.as_str());
        s
    }

    /// The identity as internal errors show it, `ExampleId(path:line)`.
    pub fn to_debug_string(&self) -> (s: String)
        ensures
            s@ == self@.debug(),
    {
        let mut s = String::from_str("ExampleId(");
        let shown = self.to_string();
        s.append(shown.as_str());
        s.append(")");
        s
    }
}

/// Of two texts one stands before the other, or they are the same text; and
/// no two of these hold at once.
pub proof fn lemma_text_order_is_total(a: Seq<char>, b: Seq<char>)
    ensures
        text_before(a, b) || a == b || text_before(b, a),
        !(text_before(a, b) && text_before(b, a)),
        !(text_before(a, b) && a == b),
    decreases a.len(),
{
    if a.len() > 0 && b.len() > 0 && a[0] == b[0] {
        lemma_text_order_is_total(a.drop_first(), b.drop_first());
        if a.drop_first() == b.drop_first() {
            assert(a =~= seq![a[0]] + a.drop_first());
            assert(b =~= seq![b[0]] + b.drop_first());
        }
    } else if a.len() > 0 && b.len() > 0 {
        // different characters have different code points
        vstd::utf8::char_u32_cast(a[0], a[0] as u32);
        vstd::utf8::char_u32_cast(b[0], b[0] as u32);
    } else if a.len() == 0 && b.len() == 0 {
        assert(a =~= b);
    }
}

/// A text before a text that is before a third is before the third.
pub proof fn lemma_text_order_is_transitive(a: Seq<char>, b: Seq<char>, c: Seq<char>)
    requires
        text_before(a, b),
        text_before(b, c),
    ensures
        text_before(a, c),
    decreases a.len(),
{
    if a.len() > 0 && a[0] == b[0] && b[0] == c[0] {
        lemma_text_order_is_transitive(a.drop_first(), b.drop_first(), c.drop_first());
    }
}

/// Identities are totally ordered, by document and then by line: of two
/// identities one stands before the other or they are the same, never two
/// of these at once; and the order is transitive.
pub proof fn lemma_identities_are_totally_ordered(
    a: ExampleIdView,
    b: ExampleIdView,
    c: ExampleIdView,
)
    ensures
        a.before(b) || a == b || b.before(a),
        !(a.before(b) && b.before(a)),
        !(a.before(b) && a == b),
        a.before(b) && b.before(c) ==> a.before(c),
{
    lemma_text_order_is_total(a.source_path, b.source_path);
    if a.before(b) && b.before(c) {
        lemma_text_order_is_total(b.source_path, c.source_path);
        if text_before(a.source_path, b.source_path) && text_before(
            b.source_path,
            c.source_path,
        ) {
            lemma_text_order_is_transitive(a.source_path, b.source_path, c.source_path);
        }
    }
}

} // verus!
