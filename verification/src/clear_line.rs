//! The terminal's "erase the current line" control sequence, and the matcher
//! that recognises it one character at a time.

use vstd::prelude::*;

verus! {

/// The control sequence an interpreter emits before it redraws a line:
/// carriage return, escape, `[`, `K`.
pub open spec fn clear_line() -> Seq<char> {
    seq!['\r', '\u{1b}', '[', 'K']
}

/// The same sequence as the bytes that arrive on the stream.
pub open spec fn clear_line_bytes() -> Seq<u8> {
    seq![0x0Du8, 0x1Bu8, 0x5Bu8, 0x4Bu8]
}

/// Where a matcher that has matched `matched` characters stands after `ch`.
pub enum ClearLineStep {
    /// `ch` was the expected character and more are to come.
    InProgress(nat),
    /// `ch` completed the sequence.
    ReachedEnd,
    /// `ch` was not the expected character.
    UnexpectedCharacter,
}

/// The matcher's transition: the next character of the sequence advances it,
/// the last one completes it, any other character is a mismatch.
pub open spec fn clear_line_step(matched: nat, ch: char) -> ClearLineStep {
    if matched < clear_line().len() && ch == clear_line()[matched as int] {
        if matched + 1 == clear_line().len() {
            ClearLineStep::ReachedEnd
        } else {
            ClearLineStep::InProgress(matched + 1)
        }
    } else {
        ClearLineStep::UnexpectedCharacter
    }
}

/// How far into the clear-line sequence the stream has got. A value of this
/// type always stands before a character of the sequence: a completed match
/// is reported, never stored.
#[derive(Debug, Clone, Copy)]
pub struct ClearLineProgress {
    position: usize,
}

/// What one character does to a [`ClearLineProgress`].
#[derive(Debug, Clone, Copy)]
pub enum ClearLineProgressStatus {
    InProgress(ClearLineProgress),
    ReachedEnd,
    UnexpectedCharacter,
}

impl View for ClearLineProgress {
    type V = nat;

    /// The number of characters matched so far.
    closed spec fn view(&self) -> nat {
        self.position as nat
    }
}

impl View for ClearLineProgressStatus {
    type V = ClearLineStep;

    open spec fn view(&self) -> ClearLineStep {
        match self {
            ClearLineProgressStatus::InProgress(progress) => ClearLineStep::InProgress(progress@),
            ClearLineProgressStatus::ReachedEnd => ClearLineStep::ReachedEnd,
            ClearLineProgressStatus::UnexpectedCharacter => ClearLineStep::UnexpectedCharacter,
        }
    }
}

impl ClearLineProgress {
    /// A stored position is always before the end of the sequence.
    #[verifier::type_invariant]
    spec fn before_the_end(self) -> bool {
        self.position < 4
    }

    /// A matcher that has seen nothing yet.
    pub fn new() -> (progress: Self)
        ensures
            progress@ == 0,
    {
        ClearLineProgress { position: 0 }
    }

    /// The number of characters matched so far, always less than the
    /// sequence's length.
    pub fn matched(&self) -> (n: usize)
        ensures
            n == self@,
            n < clear_line().len(),
    {
        proof {
            use_type_invariant(self);
        }
        self.position
    }

    /// Feeds one character to the matcher.
    pub fn character(self, ch: char) -> (status: ClearLineProgressStatus)
        ensures
            status@ == clear_line_step(self@, ch),
    {
        proof {
            use_type_invariant(&self);
        }
        let expected = if self.position == 0 {
            '\r'
        } else if self.position == 1 {
            '\u{1b}'
        } else if self.position == 2 {
            '['
        } else {
            'K'
        };
        if ch != expected {
            ClearLineProgressStatus::UnexpectedCharacter
        } else if self.position == 3 {
            ClearLineProgressStatus::ReachedEnd
        } else {
            ClearLineProgressStatus::InProgress(ClearLineProgress { position: self.position + 1 })
        }
    }
}

} // verus!
