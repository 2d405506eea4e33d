//! The events of a YAML document, and what a parser reports of one.

use vstd::prelude::*;

verus! {

/// A place in the source text.
#[derive(Clone, Copy, Debug, PartialEq, Eq)]
pub struct Mark {
    /// Characters before this place.
    pub index: usize,
    /// The line, counted from one.
    pub line: usize,
    /// The column, counted from zero.
    pub col: usize,
}

/// How a scalar was written.
#[derive(Clone, Copy, Debug, PartialEq, Eq)]
pub enum ScalarStyle {
    Any,
    Plain,
    SingleQuoted,
    DoubleQuoted,
    Literal,
    Folded,
}

/// The token that a parser attached to a scalar to say what it is.
#[derive(Clone, Debug, PartialEq, Eq)]
pub enum Token {
    /// A tag, as its handle and its suffix: for `!!int`, `!!` and `int`.
    Tag(String, String),
    /// A token of any other kind. It says nothing about the scalar.
    Other,
}

/// One node event of a document.
#[derive(Clone, Debug, PartialEq, Eq)]
pub enum Event {
    /// A reference to the node that carries this anchor id.
    Alias(usize),
    /// A scalar: its text, its style, and the token attached to it.
    Scalar(String, ScalarStyle, Option<Token>),
    SequenceStart,
    SequenceEnd,
    MappingStart,
    MappingEnd,
}

/// What a parser reports while it reads a stream: the frame of the stream and
/// of its documents, and the nodes. A node that can be referred to carries its
/// anchor id.
#[derive(Clone, Debug, PartialEq, Eq)]
pub enum Notification {
    Nothing,
    StreamStart,
    StreamEnd,
    DocumentStart,
    DocumentEnd,
    /// A reference to the node that carries this anchor id.
    Alias(usize),
    /// A scalar: its text, its style, its anchor id, and the token attached
    /// to it.
    Scalar(String, ScalarStyle, usize, Option<Token>),
    /// The start of a sequence, with its anchor id.
    SequenceStart(usize),
    SequenceEnd,
    /// The start of a mapping, with its anchor id.
    MappingStart(usize),
    MappingEnd,
}

impl Event {
    /// A scalar or the start of a collection: the events that an anchor can
    /// name.
    pub open spec fn is_anchorable(self) -> bool {
        self is Scalar || self is SequenceStart || self is MappingStart
    }

    /// The end of a sequence or of a mapping.
    pub open spec fn is_end(self) -> bool {
        self is SequenceEnd || self is MappingEnd
    }
}

} // verus!
