//! What a failed parse reports.

use vstd::prelude::*;
use vstd::string::*;

verus! {

/// The reason a parse failed.
#[derive(PartialEq, Eq, Structural, Debug, Clone, Copy)]
pub enum ErrorKind {
    /// The byte at the position introduces no node, or not the node that
    /// was asked for. Nothing of the node was read.
    UnknownTag,
    /// A token does not have the shape that is called for; most often it is
    /// an argument of a tag.
    MalformedArgument,
    /// A quoted string or a comment runs to the end of the input.
    UnterminatedLiteral,
    /// Scopes are opened and closed in a way that does not nest.
    StructuralMismatch,
}

/// The class of token that was wanted where the parse failed.
#[derive(PartialEq, Eq, Structural, Debug, Clone, Copy)]
pub enum Expected {
    /// A tag character.
    Tag,
    /// White space.
    Space,
    /// The `;` that opens a comment.
    Comment,
    /// The line end that closes a comment.
    LineEnd,
    /// A quoted or bare string.
    Text,
    /// The quote that closes a string.
    Quote,
    /// A decimal integer that fits its field.
    Integer,
    /// A hexadecimal integer that fits its field.
    Hex,
    /// A duration: an apostrophe and a decimal integer, or a hexadecimal
    /// integer.
    Duration,
    /// A dynamics marking.
    Dynamics,
    /// A `0` or a `1`.
    Flag,
    /// The `)` that closes a scope.
    Close,
    /// Anything but a scope nested deeper than the limit.
    Shallower,
}

/// A failed parse: why it failed, what was wanted, and where.
///
/// The place is given from the end of the input, so that it means the same
/// to a caller that handed over only the tail of a text: `remaining` is the
/// number of bytes from the failure to the end.
#[derive(PartialEq, Eq, Structural, Debug, Clone, Copy)]
pub struct ParseError {
    pub kind: ErrorKind,
    pub expected: Expected,
    pub remaining: usize,
}

/// The mathematical model of a [`ParseError`].
pub struct Failure {
    pub kind: ErrorKind,
    pub expected: Expected,
    pub remaining: nat,
}

impl View for ParseError {
    type V = Failure;

    open spec fn view(&self) -> Failure {
        Failure { kind: self.kind, expected: self.expected, remaining: self.remaining as nat }
    }
}

impl ParseError {
    /// The failure of the given kind, `remaining` bytes before the end of
    /// the text.
    pub fn new(kind: ErrorKind, expected: Expected, remaining: usize) -> (e: ParseError)
        ensures
            e == (ParseError { kind, expected, remaining }),
    {
        ParseError { kind, expected, remaining }
    }

    /// The offset of the failure from the start of `text`, in bytes, where
    /// `text` is the input that was parsed. For a text shorter than
    /// `remaining` the offset is 0.
    pub fn offset_in(&self, text: &str) -> (at: usize)
        ensures
            at == if self.remaining <= text.spec_bytes().len() {
                text.spec_bytes().len() - self.remaining
            } else {
                0
            },
    {
        let n = text.as_bytes().len();
        if self.remaining <= n {
            n - self.remaining
        } else {
            0
        }
    }
}

} // verus!
