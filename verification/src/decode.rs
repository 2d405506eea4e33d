//! The cursor over a stream of events. It tells a consumer what the node
//! under it is, one step at a time; the consumer builds its values from the
//! answers and asks again for each child. Nodes that the consumer leaves
//! unread are walked over here.

use vstd::prelude::*;
use crate::error::{Error, ErrorKind, Expected, Unexpected};
use crate::event::{Event, Mark, ScalarStyle, Token};
use crate::loader::Loader;
use crate::scalar::{is_null_text, mismatch, refuse, resolve, resolved, Scalar};
use crate::text::str_eq;

verus! {

/// How many collections may be open, one inside the other, when a cursor
/// starts.
pub const DEPTH_LIMIT: usize = 128;

/// A position in a stream of events, with the number of collections that may
/// still be entered below it.
#[derive(Clone, Copy, Debug, PartialEq, Eq)]
pub struct Deserializer<'a> {
    pub doc: &'a Loader,
    pub pos: usize,
    pub remaining_depth: usize,
}

/// What `visit` found.
#[derive(Clone, Copy, Debug, PartialEq, Eq)]
pub enum Visit<'a> {
    /// An alias. The node that it names is under the cursor given here.
    Alias(Deserializer<'a>),
    /// A scalar: what it is, and its text.
    Scalar(Scalar, &'a String),
    /// The start of a sequence. Its elements follow.
    Sequence,
    /// The start of a mapping. Its keys and values follow.
    Mapping,
}

/// What `deserialize_option` found.
#[derive(Clone, Copy, Debug, PartialEq, Eq)]
pub enum Presence<'a> {
    /// An alias. The question goes to the cursor given here.
    Alias(Deserializer<'a>),
    /// A null. It has been read.
    Absent,
    /// Anything else. It is still to be read.
    Present,
}

/// What `deserialize_enum` found.
#[derive(Clone, Copy, Debug, PartialEq, Eq)]
pub enum Variant<'a> {
    /// An alias. The question goes to the cursor given here.
    Alias(Deserializer<'a>),
    /// A scalar, still to be read: the name of a variant without content.
    Unit,
    /// A mapping whose start has been read: its one key names the variant,
    /// its value is the content.
    Mapping,
}

/// The two kinds of collection, each closed by an event of its own.
#[derive(Clone, Copy, Debug, PartialEq, Eq)]
pub enum Closing {
    Sequence,
    Mapping,
}

/// How walking over one node ends.
#[derive(Clone, Debug, PartialEq, Eq)]
pub enum Walk {
    /// The node ends before this position.
    Done(usize),
    /// The node cannot be decoded.
    Failed(Error),
    /// An end event stands where a node should begin.
    Stray,
}

/// How walking to the end of a collection ends.
#[derive(Clone, Debug, PartialEq, Eq)]
pub enum Rest {
    /// The collection ends before the first position; the second number is
    /// the count of items after those seen before.
    Closed(usize, usize),
    /// An item cannot be decoded, or the events run out.
    Failed(Error),
    /// An end event stands where a node should begin.
    Stray,
}

/// One more than `n`, as far as a `usize` counts.
pub open spec fn one_more(n: usize) -> usize {
    if n < usize::MAX {
        (n + 1) as usize
    } else {
        n
    }
}

impl Closing {
    /// Whether `event` is the end of a collection of this kind.
    pub open spec fn closes(self, event: Event) -> bool {
        match self {
            Closing::Sequence => event is SequenceEnd,
            Closing::Mapping => event is MappingEnd,
        }
    }

    /// A collection of this kind with `len` items, as an expectation.
    pub open spec fn of_length(self, len: usize) -> Expected {
        match self {
            Closing::Sequence => Expected::Sequence(len),
            Closing::Mapping => Expected::Mapping(len),
        }
    }

    /// Whether `event` is the end of a collection of this kind.
    pub fn is_closed_by(self, event: &Event) -> (b: bool)
        ensures
            b == self.closes(*event),
    {
        match self {
            Closing::Sequence => match event {
                Event::SequenceEnd => true,
                _ => false,
            },
            Closing::Mapping => match event {
                Event::MappingEnd => true,
                _ => false,
            },
        }
    }
}

impl Walk {
    /// This outcome, with a failure placed at `mark` if it has no place.
    pub open spec fn marked(self, mark: Mark) -> Walk {
        match self {
            Walk::Failed(e) => Walk::Failed(e.marked(mark)),
            _ => self,
        }
    }
}

impl Rest {
    /// The outcome for the node that the collection is.
    pub open spec fn as_walk(self) -> Walk {
        match self {
            Rest::Closed(end, _) => Walk::Done(end),
            Rest::Failed(e) => Walk::Failed(e),
            Rest::Stray => Walk::Stray,
        }
    }
}

/// The failure of a collection that holds `extra` items more than the `len`
/// that were asked for.
pub open spec fn wrong_length(closing: Closing, len: usize, extra: usize) -> Error {
    let found = if len + extra <= usize::MAX {
        (len + extra) as usize
    } else {
        usize::MAX
    };
    Error::of(ErrorKind::InvalidLength(found, closing.of_length(len)))
}

impl<'a> Deserializer<'a> {
    /// The event under the cursor with its place in the source, if the
    /// cursor is not past the last event.
    pub open spec fn current(self) -> Option<(Event, Mark)> {
        if self.pos < self.doc@.events.len() {
            Some(self.doc@.events[self.pos as int])
        } else {
            None
        }
    }

    /// An end event is under the cursor.
    pub open spec fn at_end(self) -> bool {
        self.current() matches Some((event, _)) && event.is_end()
    }

    /// This cursor at another position.
    pub open spec fn moved(self, pos: usize) -> Self {
        Deserializer { doc: self.doc, pos, remaining_depth: self.remaining_depth }
    }

    /// This cursor one event further.
    pub open spec fn stepped(self) -> Self {
        self.moved((self.pos + 1) as usize)
    }

    /// This cursor one event further and one collection deeper.
    pub open spec fn entered(self) -> Self {
        Deserializer {
            doc: self.doc,
            pos: (self.pos + 1) as usize,
            remaining_depth: (self.remaining_depth - 1) as usize,
        }
    }

    /// This cursor at `pos`, one collection less deep.
    pub open spec fn left(self, pos: usize) -> Self {
        Deserializer { doc: self.doc, pos, remaining_depth: one_more(self.remaining_depth) }
    }

    /// Where the alias with the anchor id `id` leads from here: a cursor of
    /// the same depth at the node that carries the id, or the failure
    /// `UnresolvedAlias`.
    pub open spec fn jumped(self, id: usize) -> Result<Self, Error> {
        if self.doc@.aliases.contains_key(id) {
            Ok(self.moved(self.doc@.aliases[id]))
        } else {
            Err(Error::of(ErrorKind::UnresolvedAlias(id)))
        }
    }

    /// What `peek` and `next` answer.
    pub open spec fn peeked(self) -> Result<(&'a Event, Mark), Error> {
        match self.current() {
            Some((event, mark)) => Ok((&event, mark)),
            None => Err(Error::of(ErrorKind::EndOfStream)),
        }
    }

    /// What `visit` answers. An alias is followed. A scalar is what the
    /// resolver says. The start of a collection is entered, unless no depth
    /// is left.
    pub open spec fn visit_result(self) -> Result<Visit<'a>, Error> {
        match self.current() {
            None => Err(Error::of(ErrorKind::EndOfStream)),
            Some((event, _)) => match event {
                Event::Alias(id) => match self.jumped(id) {
                    Ok(sub) => Ok(Visit::Alias(sub)),
                    Err(e) => Err(e),
                },
                Event::Scalar(text, style, tag) => match resolved(text, style, tag) {
                    Ok(kind) => Ok(Visit::Scalar(kind, &text)),
                    Err(e) => Err(e),
                },
                Event::SequenceStart => if self.remaining_depth == 0 {
                    Err(Error::of(ErrorKind::RecursionLimitExceeded))
                } else {
                    Ok(Visit::Sequence)
                },
                Event::MappingStart => if self.remaining_depth == 0 {
                    Err(Error::of(ErrorKind::RecursionLimitExceeded))
                } else {
                    Ok(Visit::Mapping)
                },
                _ => Err(Error::of(ErrorKind::EndOfStream)),
            },
        }
    }

    /// The cursor after `visit`: past the event, and one collection deeper
    /// if a collection was entered.
    pub open spec fn after_visit(self) -> Self {
        match self.current() {
            None => self,
            Some((event, _)) => if (event is SequenceStart || event is MappingStart)
                && self.remaining_depth > 0 {
                self.entered()
            } else {
                self.stepped()
            },
        }
    }

    /// Whether the scalar is a null that stands for an absent value: so it
    /// is if it is plain, its text is `~` or `null`, and it has no tag or the
    /// tag `!!null`. A plain scalar with the tag `!!null` and another text is
    /// a failure. Under another tag, or not plain, it is a value.
    pub open spec fn scalar_is_absent(text: String, style: ScalarStyle, tag: Option<Token>) -> Result<
        bool,
        Error,
    > {
        if style != ScalarStyle::Plain {
            Ok(false)
        } else {
            match tag {
                Some(Token::Tag(handle, suffix)) => if handle@ == "!!"@ && suffix@ == "null"@ {
                    if is_null_text(text@) {
                        Ok(true)
                    } else {
                        Err(mismatch(text, Expected::Null))
                    }
                } else {
                    Ok(false)
                },
                _ => Ok(is_null_text(text@)),
            }
        }
    }

    /// What `deserialize_option` answers.
    pub open spec fn option_result(self) -> Result<Presence<'a>, Error> {
        match self.current() {
            None => Err(Error::of(ErrorKind::EndOfStream)),
            Some((event, _)) => match event {
                Event::Alias(id) => match self.jumped(id) {
                    Ok(sub) => Ok(Presence::Alias(sub)),
                    Err(e) => Err(e),
                },
                Event::Scalar(text, style, tag) => match Self::scalar_is_absent(text, style, tag) {
                    Ok(true) => Ok(Presence::Absent),
                    Ok(false) => Ok(Presence::Present),
                    Err(e) => Err(e),
                },
                _ => Ok(Presence::Present),
            },
        }
    }

    /// The cursor after `deserialize_option`: past an alias and past a null,
    /// else where it was.
    pub open spec fn after_option(self) -> Self {
        match self.current() {
            Some((Event::Alias(_), _)) => self.stepped(),
            Some((Event::Scalar(text, style, tag), _)) => if Self::scalar_is_absent(text, style, tag)
                == Ok::<bool, Error>(true) {
                self.stepped()
            } else {
                self
            },
            _ => self,
        }
    }

    /// What `deserialize_enum` answers. A sequence is no variant.
    pub open spec fn enum_result(self) -> Result<Variant<'a>, Error> {
        match self.current() {
            None => Err(Error::of(ErrorKind::EndOfStream)),
            Some((event, _)) => match event {
                Event::Alias(id) => match self.jumped(id) {
                    Ok(sub) => Ok(Variant::Alias(sub)),
                    Err(e) => Err(e),
                },
                Event::Scalar(_, _, _) => Ok(Variant::Unit),
                Event::MappingStart => if self.remaining_depth == 0 {
                    Err(Error::of(ErrorKind::RecursionLimitExceeded))
                } else {
                    Ok(Variant::Mapping)
                },
                _ => Err(
                    Error::of(
                        ErrorKind::InvalidType(Unexpected::Sequence, Expected::StringOrSingletonMap),
                    ),
                ),
            },
        }
    }

    /// The cursor after `deserialize_enum`: past an alias, inside a mapping,
    /// else where it was.
    pub open spec fn after_enum(self) -> Self {
        match self.current() {
            Some((Event::Alias(_), _)) => self.stepped(),
            Some((Event::MappingStart, _)) => if self.remaining_depth > 0 {
                self.entered()
            } else {
                self
            },
            _ => self,
        }
    }

    /// One where an alias is under the cursor, else zero.
    pub open spec fn phase(self) -> nat {
        if self.current() matches Some((Event::Alias(_), _)) {
            1
        } else {
            0
        }
    }

    /// How walking over the node under the cursor ends, when nothing is
    /// built from it. An alias is walked at the node that it names, and ends
    /// behind the alias. A scalar must be what its tag says. A collection is
    /// walked item by item to its end. A failure gets the place of the node
    /// unless it has one from further inside.
    pub open spec fn walk(self) -> Walk
        decreases self.remaining_depth, self.phase(), 0nat,
    {
        match self.current() {
            None => Walk::Failed(Error::of(ErrorKind::EndOfStream)),
            Some((event, mark)) => (match event {
                Event::Alias(id) => match self.jumped(id) {
                    Err(e) => Walk::Failed(e),
                    Ok(sub) => if sub.phase() == 0 {
                        match sub.walk() {
                            Walk::Done(_) => Walk::Done(self.stepped().pos),
                            other => other,
                        }
                    } else {
                        Walk::Stray
                    },
                },
                Event::Scalar(text, style, tag) => match resolved(text, style, tag) {
                    Ok(_) => Walk::Done(self.stepped().pos),
                    Err(e) => Walk::Failed(e),
                },
                Event::SequenceStart => if self.remaining_depth == 0 {
                    Walk::Failed(Error::of(ErrorKind::RecursionLimitExceeded))
                } else {
                    self.entered().rest(Closing::Sequence, 0).as_walk()
                },
                Event::MappingStart => if self.remaining_depth == 0 {
                    Walk::Failed(Error::of(ErrorKind::RecursionLimitExceeded))
                } else {
                    self.entered().rest(Closing::Mapping, 0).as_walk()
                },
                _ => Walk::Stray,
            }).marked(mark),
        }
    }

    /// How walking from the cursor to the end of the collection around it
    /// ends, after `seen` items. At the end event the collection is closed.
    /// Before it stands an item: one node in a sequence, a key and then a
    /// value in a mapping. It is walked over and counted.
    pub open spec fn rest(self, closing: Closing, seen: usize) -> Rest
        decreases self.remaining_depth, 2nat, self.doc@.events.len() - self.pos,
    {
        match self.current() {
            None => Rest::Failed(Error::of(ErrorKind::EndOfStream)),
            Some((event, _)) => if closing.closes(event) {
                Rest::Closed(self.stepped().pos, seen)
            } else {
                match self.item(closing) {
                    Walk::Done(next) => if self.pos < next <= self.doc@.events.len() {
                        self.moved(next).rest(closing, one_more(seen))
                    } else {
                        Rest::Stray
                    },
                    Walk::Failed(e) => Rest::Failed(e),
                    Walk::Stray => Rest::Stray,
                }
            },
        }
    }

    /// How walking over the item under the cursor ends: one node in a
    /// sequence, two in a mapping.
    pub open spec fn item(self, closing: Closing) -> Walk
        decreases self.remaining_depth, 1nat, 1nat,
    {
        match closing {
            Closing::Sequence => self.walk(),
            Closing::Mapping => match self.walk() {
                Walk::Done(value) => if self.pos < value {
                    self.moved(value).walk()
                } else {
                    Walk::Stray
                },
                other => other,
            },
        }
    }

    /// What closing a collection answers of which `len` items were read and
    /// `extra` more were found: success if there were no more, else the
    /// failure `InvalidLength` with the number found.
    pub open spec fn reconciled(closing: Closing, len: usize, extra: usize) -> Result<(), Error> {
        if extra == 0 {
            Ok(())
        } else {
            Err(wrong_length(closing, len, extra))
        }
    }

    /// A cursor at the first event of `doc`.
    pub fn new(doc: &'a Loader) -> (de: Self)
        ensures
            de == (Deserializer { doc, pos: 0, remaining_depth: DEPTH_LIMIT }),
    {
        Deserializer { doc, pos: 0, remaining_depth: DEPTH_LIMIT }
    }

    /// The event under the cursor.
    pub fn peek(&self) -> (r: Result<(&'a Event, Mark), Error>)
        ensures
            r == self.peeked(),
            self.doc@.wf(),
    {
        let doc: &'a Loader = self.doc;
        match doc.get(self.pos) {
            Some(event) => Ok((&event.0, event.1)),
            None => Err(Error::end_of_stream()),
        }
    }

    /// The event under the cursor; the cursor moves past it.
    pub fn next(&mut self) -> (r: Result<(&'a Event, Mark), Error>)
        ensures
            r == old(self).peeked(),
            *final(self) == (if r is Ok {
                old(self).stepped()
            } else {
                *old(self)
            }),
            old(self).doc@.wf(),
    {
        let doc: &'a Loader = self.doc;
        match doc.get(self.pos) {
            Some(event) => {
                self.pos = self.pos + 1;
                Ok((&event.0, event.1))
            },
            None => Err(Error::end_of_stream()),
        }
    }

    /// A cursor at the node that carries the anchor id `id`.
    pub fn jump(&self, id: usize) -> (r: Result<Deserializer<'a>, Error>)
        ensures
            r == self.jumped(id),
            self.doc@.wf(),
    {
        match self.doc.target(id) {
            Some(pos) => Ok(
                Deserializer { doc: self.doc, pos, remaining_depth: self.remaining_depth },
            ),
            None => Err(Error::new(ErrorKind::UnresolvedAlias(id))),
        }
    }

    /// Whether an end event is under the cursor.
    pub fn is_at_end(&self) -> (b: bool)
        ensures
            b == self.at_end(),
    {
        match self.peek() {
            Ok((event, _)) => match event {
                Event::SequenceEnd | Event::MappingEnd => true,
                _ => false,
            },
            Err(_) => false,
        }
    }

    /// Reads the event under the cursor and says what node begins there.
    pub fn visit(&mut self) -> (r: Result<Visit<'a>, Error>)
        requires
            !old(self).at_end(),
        ensures
            r == old(self).visit_result(),
            *final(self) == old(self).after_visit(),
    {
        let event = match self.next() {
            Ok((event, _)) => event,
            Err(e) => {
                return Err(e);
            },
        };
        match event {
            Event::Alias(i) => match self.jump(*i) {
                Ok(sub) => Ok(Visit::Alias(sub)),
                Err(e) => Err(e),
            },
            Event::Scalar(v, style, tag) => match resolve(v, *style, tag) {
                Ok(kind) => Ok(Visit::Scalar(kind, v)),
                Err(e) => Err(e),
            },
            Event::SequenceStart => {
                if self.remaining_depth == 0 {
                    Err(Error::new(ErrorKind::RecursionLimitExceeded))
                } else {
                    self.remaining_depth = self.remaining_depth - 1;
                    Ok(Visit::Sequence)
                }
            },
            Event::MappingStart => {
                if self.remaining_depth == 0 {
                    Err(Error::new(ErrorKind::RecursionLimitExceeded))
                } else {
                    self.remaining_depth = self.remaining_depth - 1;
                    Ok(Visit::Mapping)
                }
            },
            _ => Err(Error::end_of_stream()),
        }
    }

    /// As `visit`, with a failure placed at the event that was read.
    pub fn deserialize(&mut self) -> (r: Result<Visit<'a>, Error>)
        requires
            !old(self).at_end(),
        ensures
            r == (match old(self).current() {
                None => Err(Error::of(ErrorKind::EndOfStream)),
                Some((_, mark)) => match old(self).visit_result() {
                    Ok(found) => Ok(found),
                    Err(e) => Err(e.marked(mark)),
                },
            }),
            *final(self) == old(self).after_visit(),
    {
        let marker = match self.peek() {
            Ok((_, marker)) => marker,
            Err(e) => {
                return Err(e);
            },
        };
        match self.visit() {
            Ok(found) => Ok(found),
            Err(e) => Err(e.fix_marker(marker)),
        }
    }

    /// Says whether the node under the cursor stands for an absent value.
    /// A null is read; a value is left for the next question.
    pub fn deserialize_option(&mut self) -> (r: Result<Presence<'a>, Error>)
        requires
            !old(self).at_end(),
        ensures
            r == old(self).option_result(),
            *final(self) == old(self).after_option(),
    {
        let event = match self.peek() {
            Ok((event, _)) => event,
            Err(e) => {
                return Err(e);
            },
        };
        match event {
            Event::Alias(i) => {
                self.pos = self.pos + 1;
                match self.jump(*i) {
                    Ok(sub) => Ok(Presence::Alias(sub)),
                    Err(e) => Err(e),
                }
            },
            Event::Scalar(v, style, tag) => {
                let plain = match style {
                    ScalarStyle::Plain => true,
                    _ => false,
                };
                let null = str_eq(v.as_str(), "~") || str_eq(v.as_str(), "null");
                let absent = if !plain {
                    false
                } else {
                    match tag {
                        Some(Token::Tag(handle, suffix)) => {
                            if str_eq(handle.as_str(), "!!") && str_eq(suffix.as_str(), "null") {
                                if null {
                                    true
                                } else {
                                    return Err(refuse(v, Expected::Null));
                                }
                            } else {
                                false
                            }
                        },
                        _ => null,
                    }
                };
                if absent {
                    self.pos = self.pos + 1;
                    Ok(Presence::Absent)
                } else {
                    Ok(Presence::Present)
                }
            },
            _ => Ok(Presence::Present),
        }
    }

    /// Says in which of its two forms a variant stands under the cursor.
    pub fn deserialize_enum(&mut self) -> (r: Result<Variant<'a>, Error>)
        requires
            !old(self).at_end(),
        ensures
            r == old(self).enum_result(),
            *final(self) == old(self).after_enum(),
    {
        let event = match self.peek() {
            Ok((event, _)) => event,
            Err(e) => {
                return Err(e);
            },
        };
        match event {
            Event::Alias(i) => {
                self.pos = self.pos + 1;
                match self.jump(*i) {
                    Ok(sub) => Ok(Variant::Alias(sub)),
                    Err(e) => Err(e),
                }
            },
            Event::Scalar(_, _, _) => Ok(Variant::Unit),
            Event::MappingStart => {
                if self.remaining_depth == 0 {
                    Err(Error::new(ErrorKind::RecursionLimitExceeded))
                } else {
                    self.pos = self.pos + 1;
                    self.remaining_depth = self.remaining_depth - 1;
                    Ok(Variant::Mapping)
                }
            },
            _ => Err(
                Error::new(
                    ErrorKind::InvalidType(Unexpected::Sequence, Expected::StringOrSingletonMap),
                ),
            ),
        }
    }

    /// Walks over the node under the cursor without moving the cursor.
    pub fn survey(&self) -> (w: Walk)
        ensures
            w == self.walk(),
            w matches Walk::Done(end) ==> self.pos < end <= self.doc@.events.len(),
        decreases self.remaining_depth, self.phase(), 0nat,
    {
        let mark = match self.peek() {
            Ok((_, mark)) => mark,
            Err(e) => {
                return Walk::Failed(e);
            },
        };
        if self.is_at_end() {
            return Walk::Stray;
        }
        let mut cursor = *self;
        let walked = match cursor.visit() {
            Err(e) => Walk::Failed(e),
            Ok(Visit::Alias(sub)) => {
                assert(sub.phase() == 0);
                match sub.survey() {
                    Walk::Done(_) => Walk::Done(cursor.pos),
                    other => other,
                }
            },
            Ok(Visit::Scalar(_, _)) => Walk::Done(cursor.pos),
            Ok(Visit::Sequence) => match cursor.survey_rest(Closing::Sequence, 0) {
                Rest::Closed(end, _) => Walk::Done(end),
                Rest::Failed(e) => Walk::Failed(e),
                Rest::Stray => Walk::Stray,
            },
            Ok(Visit::Mapping) => match cursor.survey_rest(Closing::Mapping, 0) {
                Rest::Closed(end, _) => Walk::Done(end),
                Rest::Failed(e) => Walk::Failed(e),
                Rest::Stray => Walk::Stray,
            },
        };
        match walked {
            Walk::Failed(e) => Walk::Failed(e.fix_marker(mark)),
            other => other,
        }
    }

    /// Walks over the item under the cursor without moving the cursor.
    pub fn survey_item(&self, closing: Closing) -> (w: Walk)
        ensures
            w == self.item(closing),
            w matches Walk::Done(end) ==> self.pos < end <= self.doc@.events.len(),
        decreases self.remaining_depth, 1nat, 1nat,
    {
        match closing {
            Closing::Sequence => self.survey(),
            Closing::Mapping => match self.survey() {
                Walk::Done(value) => {
                    let at_value = Deserializer {
                        doc: self.doc,
                        pos: value,
                        remaining_depth: self.remaining_depth,
                    };
                    at_value.survey()
                },
                other => other,
            },
        }
    }

    /// Walks from the cursor to the end of the collection around it, without
    /// moving the cursor.
    pub fn survey_rest(&self, closing: Closing, seen: usize) -> (r: Rest)
        ensures
            r == self.rest(closing, seen),
            r matches Rest::Closed(end, _) ==> self.pos < end <= self.doc@.events.len(),
        decreases self.remaining_depth, 2nat, self.doc@.events.len() - self.pos,
    {
        let mut cursor = *self;
        let mut count = seen;
        loop
            invariant
                cursor.doc == self.doc,
                cursor.remaining_depth == self.remaining_depth,
                self.pos <= cursor.pos,
                self.rest(closing, seen) == cursor.rest(closing, count),
            decreases self.doc@.events.len() - cursor.pos,
        {
            let event = match cursor.peek() {
                Ok((event, _)) => event,
                Err(e) => {
                    return Rest::Failed(e);
                },
            };
            if closing.is_closed_by(event) {
                return Rest::Closed(cursor.pos + 1, count);
            }
            match cursor.survey_item(closing) {
                Walk::Done(next) => {
                    cursor.pos = next;
                    if count < usize::MAX {
                        count = count + 1;
                    }
                },
                Walk::Failed(e) => {
                    return Rest::Failed(e);
                },
                Walk::Stray => {
                    return Rest::Stray;
                },
            }
        }
    }

    /// Reads the node under the cursor and builds nothing from it. On a
    /// failure the cursor stays where it was.
    pub fn ignore(&mut self) -> (r: Result<(), Error>)
        requires
            !(old(self).walk() is Stray),
        ensures
            match old(self).walk() {
                Walk::Done(end) => r == Ok::<(), Error>(()) && *final(self) == old(self).moved(end)
                    && old(self).pos < end <= old(self).doc@.events.len(),
                Walk::Failed(e) => r == Err::<(), Error>(e) && *final(self) == *old(self),
                Walk::Stray => false,
            },
    {
        match self.survey() {
            Walk::Done(end) => {
                self.pos = end;
                Ok(())
            },
            Walk::Failed(e) => Err(e),
            Walk::Stray => Err(Error::end_of_stream()),
        }
    }

    /// Closes the collection that the cursor is inside: the items that were
    /// not read are walked over, the end event is read, and the collection
    /// is left. On a failure the cursor stays where it was.
    pub fn close(&mut self, closing: Closing, len: usize) -> (r: Result<(), Error>)
        requires
            !(old(self).rest(closing, 0) is Stray),
        ensures
            match old(self).rest(closing, 0) {
                Rest::Closed(end, extra) => r == Self::reconciled(closing, len, extra) && *final(self)
                    == old(self).left(end) && old(self).pos < end <= old(self).doc@.events.len(),
                Rest::Failed(e) => r == Err::<(), Error>(e) && *final(self) == *old(self),
                Rest::Stray => false,
            },
    {
        match self.survey_rest(closing, 0) {
            Rest::Closed(end, extra) => {
                self.pos = end;
                if self.remaining_depth < usize::MAX {
                    self.remaining_depth = self.remaining_depth + 1;
                }
                if extra == 0 {
                    Ok(())
                } else {
                    let found = if extra <= usize::MAX - len {
                        len + extra
                    } else {
                        usize::MAX
                    };
                    let expected = match closing {
                        Closing::Sequence => Expected::Sequence(len),
                        Closing::Mapping => Expected::Mapping(len),
                    };
                    Err(Error::new(ErrorKind::InvalidLength(found, expected)))
                }
            },
            Rest::Failed(e) => Err(e),
            Rest::Stray => Err(Error::end_of_stream()),
        }
    }

    /// Closes the sequence that the cursor is inside, of which `len`
    /// elements were read. It fails with `InvalidLength` if the sequence
    /// holds more.
    pub fn end_sequence(&mut self, len: usize) -> (r: Result<(), Error>)
        requires
            !(old(self).rest(Closing::Sequence, 0) is Stray),
        ensures
            match old(self).rest(Closing::Sequence, 0) {
                Rest::Closed(end, extra) => r == Self::reconciled(Closing::Sequence, len, extra)
                    && *final(self) == old(self).left(end),
                Rest::Failed(e) => r == Err::<(), Error>(e) && *final(self) == *old(self),
                Rest::Stray => false,
            },
    {
        self.close(Closing::Sequence, len)
    }

    /// Closes the mapping that the cursor is inside, of which `len` entries
    /// were read. It fails with `InvalidLength` if the mapping holds more.
    pub fn end_mapping(&mut self, len: usize) -> (r: Result<(), Error>)
        requires
            !(old(self).rest(Closing::Mapping, 0) is Stray),
        ensures
            match old(self).rest(Closing::Mapping, 0) {
                Rest::Closed(end, extra) => r == Self::reconciled(Closing::Mapping, len, extra)
                    && *final(self) == old(self).left(end),
                Rest::Failed(e) => r == Err::<(), Error>(e) && *final(self) == *old(self),
                Rest::Stray => false,
            },
    {
        self.close(Closing::Mapping, len)
    }

    /// Ends the decoding of a document: events that are left over belong to
    /// another document, and are a failure.
    pub fn end(&self) -> (r: Result<(), Error>)
        ensures
            r == (if self.pos == self.doc@.events.len() {
                Ok::<(), Error>(())
            } else {
                Err::<(), Error>(Error::of(ErrorKind::MoreThanOneDocument))
            }),
    {
        if self.pos == self.doc.len() {
            Ok(())
        } else {
            Err(Error::more_than_one_document())
        }
    }
}

/// The count of the items that a consumer has taken out of a collection.
#[derive(Clone, Copy, Debug, PartialEq, Eq)]
pub struct CollectionVisitor {
    pub len: usize,
}

impl CollectionVisitor {
    /// What is answered when the next item of a collection is asked for
    /// with `de` under it: `false` at the end event of the collection, which
    /// stays unread, and `true` before any other event. Past the last event
    /// the answer is the failure `EndOfStream`.
    pub open spec fn asked(de: Deserializer, closing: Closing) -> Result<bool, Error> {
        match de.current() {
            None => Err(Error::of(ErrorKind::EndOfStream)),
            Some((event, _)) => Ok(!closing.closes(event)),
        }
    }

    /// A count of no items.
    pub fn new() -> (visitor: CollectionVisitor)
        ensures
            visitor.len == 0,
    {
        CollectionVisitor { len: 0 }
    }

    /// Asks for the next item of the collection of the given kind, and
    /// counts it if there is one.
    pub fn visit(&mut self, de: &Deserializer, closing: Closing) -> (r: Result<bool, Error>)
        requires
            old(self).len < usize::MAX,
        ensures
            r == Self::asked(*de, closing),
            final(self).len == (if r == Ok::<bool, Error>(true) {
                old(self).len + 1
            } else {
                old(self).len as int
            }),
    {
        match de.peek() {
            Err(e) => Err(e),
            Ok((event, _)) => {
                if closing.is_closed_by(event) {
                    Ok(false)
                } else {
                    self.len = self.len + 1;
                    Ok(true)
                }
            },
        }
    }

    /// Asks for the next element of a sequence: whether one stands under
    /// `de`. It is counted, and is then to be read from `de`.
    pub fn visit_seed(&mut self, de: &Deserializer) -> (r: Result<bool, Error>)
        requires
            old(self).len < usize::MAX,
        ensures
            r == Self::asked(*de, Closing::Sequence),
            final(self).len == (if r == Ok::<bool, Error>(true) {
                old(self).len + 1
            } else {
                old(self).len as int
            }),
    {
        self.visit(de, Closing::Sequence)
    }

    /// Asks for the next key of a mapping: whether one stands under `de`.
    /// The entry is counted; its key and then its value are to be read from
    /// `de`.
    pub fn visit_key_seed(&mut self, de: &Deserializer) -> (r: Result<bool, Error>)
        requires
            old(self).len < usize::MAX,
        ensures
            r == Self::asked(*de, Closing::Mapping),
            final(self).len == (if r == Ok::<bool, Error>(true) {
                old(self).len + 1
            } else {
                old(self).len as int
            }),
    {
        self.visit(de, Closing::Mapping)
    }
}

/// The content that a consumer asks of a variant.
#[derive(Clone, Copy, Debug, PartialEq, Eq)]
pub enum Content {
    /// No content.
    Unit,
    /// One value.
    Newtype,
    /// A fixed number of values.
    Tuple,
    /// Named fields.
    Struct,
}

/// The variant that a bare scalar names. It has no content.
#[derive(Clone, Copy, Debug, PartialEq, Eq)]
pub struct UnitVariantVisitor;

impl UnitVariantVisitor {
    /// What a variant without content answers when `content` is asked of it:
    /// success for no content, else the failure `InvalidType` that names what
    /// was asked.
    pub open spec fn answer(content: Content) -> Result<(), Error> {
        match content {
            Content::Unit => Ok(()),
            Content::Newtype => Err(
                Error::of(ErrorKind::InvalidType(Unexpected::UnitVariant, Expected::NewtypeVariant)),
            ),
            Content::Tuple => Err(
                Error::of(ErrorKind::InvalidType(Unexpected::UnitVariant, Expected::TupleVariant)),
            ),
            Content::Struct => Err(
                Error::of(ErrorKind::InvalidType(Unexpected::UnitVariant, Expected::StructVariant)),
            ),
        }
    }

    /// No content is asked: that is what there is.
    pub fn visit_unit(self) -> (r: Result<(), Error>)
        ensures
            r == Self::answer(Content::Unit),
    {
        Ok(())
    }

    /// One value is asked: there is none.
    pub fn visit_newtype_seed(self) -> (r: Result<(), Error>)
        ensures
            r == Self::answer(Content::Newtype),
    {
        Err(
            Error::new(ErrorKind::InvalidType(Unexpected::UnitVariant, Expected::NewtypeVariant)),
        )
    }

    /// A tuple is asked: there is none.
    pub fn visit_tuple(self) -> (r: Result<(), Error>)
        ensures
            r == Self::answer(Content::Tuple),
    {
        Err(Error::new(ErrorKind::InvalidType(Unexpected::UnitVariant, Expected::TupleVariant)))
    }

    /// Named fields are asked: there are none.
    pub fn visit_struct(self) -> (r: Result<(), Error>)
        ensures
            r == Self::answer(Content::Struct),
    {
        Err(Error::new(ErrorKind::InvalidType(Unexpected::UnitVariant, Expected::StructVariant)))
    }
}

} // verus!
