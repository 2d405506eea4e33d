//! The ways in which decoding fails.

use vstd::prelude::*;
use vstd::string::StringExecFns;
use crate::event::Mark;
use crate::text::{decimal, to_decimal};

verus! {

/// What was found where something else was expected.
#[derive(Clone, Debug, PartialEq, Eq)]
pub enum Unexpected {
    /// A scalar with this text.
    Str(String),
    /// A variant without content.
    UnitVariant,
    /// A sequence.
    Sequence,
}

/// What was expected where something else was found.
#[derive(Clone, Debug, PartialEq, Eq)]
pub enum Expected {
    Boolean,
    Integer,
    Float,
    Null,
    /// A sequence of this many elements.
    Sequence(usize),
    /// A mapping of this many entries.
    Mapping(usize),
    NewtypeVariant,
    TupleVariant,
    StructVariant,
    StringOrSingletonMap,
}

/// The kind of a failure.
#[derive(Clone, Debug, PartialEq, Eq)]
pub enum ErrorKind {
    /// The events ran out.
    EndOfStream,
    /// Events were left after the first document.
    MoreThanOneDocument,
    /// An alias names an anchor id that no node carries.
    UnresolvedAlias(usize),
    /// Collections are nested more deeply than the decoder follows.
    RecursionLimitExceeded,
    /// A scalar's text is not of the kind that its tag names.
    InvalidValue(Unexpected, Expected),
    /// A collection has another number of items than was asked for. The
    /// number is the one found.
    InvalidLength(usize, Expected),
    /// A node has another shape than was asked for.
    InvalidType(Unexpected, Expected),
    /// The text is no YAML; the message is the parser's.
    Scan(String),
    /// The bytes are no UTF-8.
    InvalidUtf8,
}

/// A failure, with the place in the source where it is known.
#[derive(Clone, Debug, PartialEq, Eq)]
pub struct Error {
    pub kind: ErrorKind,
    pub mark: Option<Mark>,
}

impl Expected {
    /// The words for what was expected. A collection is named with the
    /// number of its items, one item in the singular.
    pub open spec fn described(self) -> Seq<char> {
        match self {
            Expected::Boolean => "a boolean"@,
            Expected::Integer => "an integer"@,
            Expected::Float => "a float"@,
            Expected::Null => "null"@,
            Expected::Sequence(n) => if n == 1 {
                "sequence of 1 element"@
            } else {
                "sequence of "@ + decimal(n as nat) + " elements"@
            },
            Expected::Mapping(n) => if n == 1 {
                "map containing 1 entry"@
            } else {
                "map containing "@ + decimal(n as nat) + " entries"@
            },
            Expected::NewtypeVariant => "newtype variant"@,
            Expected::TupleVariant => "tuple variant"@,
            Expected::StructVariant => "struct variant"@,
            Expected::StringOrSingletonMap => "string or singleton map"@,
        }
    }

    /// The words for what was expected.
    pub fn describe(&self) -> (s: String)
        ensures
            s@ == self.described(),
    {
        match self {
            Expected::Boolean => String::from_str("a boolean"),
            Expected::Integer => String::from_str("an integer"),
            Expected::Float => String::from_str("a float"),
            Expected::Null => String::from_str("null"),
            Expected::Sequence(n) => {
                if *n == 1 {
                    String::from_str("sequence of 1 element")
                } else {
                    let mut s = String::from_str("sequence of ");
                    let number = to_decimal(*n);
                    s.append(number.as_str());
                    s.append(" elements");
                    s
                }
            },
            Expected::Mapping(n) => {
                if *n == 1 {
                    String::from_str("map containing 1 entry")
                } else {
                    let mut s = String::from_str("map containing ");
                    let number = to_decimal(*n);
                    s.append(number.as_str());
                    s.append(" entries");
                    s
                }
            },
            Expected::NewtypeVariant => String::from_str("newtype variant"),
            Expected::TupleVariant => String::from_str("tuple variant"),
            Expected::StructVariant => String::from_str("struct variant"),
            Expected::StringOrSingletonMap => String::from_str("string or singleton map"),
        }
    }
}

impl Error {
    /// A failure of the given kind at no known place.
    pub open spec fn of(kind: ErrorKind) -> Error {
        Error { kind, mark: None }
    }

    /// This failure at `mark`, unless it has a place already.
    pub open spec fn marked(self, mark: Mark) -> Error {
        Error {
            kind: self.kind,
            mark: match self.mark {
                Some(m) => Some(m),
                None => Some(mark),
            },
        }
    }

    pub fn new(kind: ErrorKind) -> (e: Error)
        ensures
            e == Error::of(kind),
    {
        Error { kind, mark: None }
    }

    pub fn end_of_stream() -> (e: Error)
        ensures
            e == Error::of(ErrorKind::EndOfStream),
    {
        Error { kind: ErrorKind::EndOfStream, mark: None }
    }

    pub fn more_than_one_document() -> (e: Error)
        ensures
            e == Error::of(ErrorKind::MoreThanOneDocument),
    {
        Error { kind: ErrorKind::MoreThanOneDocument, mark: None }
    }

    /// Gives the failure the place `mark` if it has none.
    pub fn fix_marker(self, mark: Mark) -> (e: Error)
        ensures
            e == self.marked(mark),
    {
        match self.mark {
            Some(_) => self,
            None => Error { kind: self.kind, mark: Some(mark) },
        }
    }
}

} // verus!
