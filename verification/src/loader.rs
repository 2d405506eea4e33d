//! The collector: it keeps the node events that a parser reports, in order,
//! and remembers at which place each anchor id was last seen.

use vstd::prelude::*;
use std::collections::BTreeMap;
use crate::event::{Event, Mark, Notification};

verus! {

/// The events of a stream with their places in the source, and the index of
/// its anchors: from an anchor id to the position, among the events, of the
/// node that carries it.
pub struct Stream {
    pub events: Seq<(Event, Mark)>,
    pub aliases: Map<usize, usize>,
}

impl Stream {
    /// No events and no anchors.
    pub open spec fn empty() -> Stream {
        Stream { events: Seq::empty(), aliases: Map::empty() }
    }

    /// The events can be counted in a `usize`, every anchor id leads to an
    /// event of the stream, and that event is a scalar or the start of a
    /// collection.
    pub open spec fn wf(self) -> bool {
        &&& self.events.len() <= usize::MAX
        &&& forall|id: usize| #[trigger]
            self.aliases.contains_key(id) ==> self.aliases[id] < self.events.len()
                && self.events[self.aliases[id] as int].0.is_anchorable()
    }

    /// This stream with one more event at its end.
    pub open spec fn append(self, event: Event, mark: Mark) -> Stream {
        Stream { events: self.events.push((event, mark)), aliases: self.aliases }
    }

    /// This stream with the anchor id `id` leading to the place where the next
    /// event will stand.
    pub open spec fn anchor(self, id: usize) -> Stream {
        Stream { events: self.events, aliases: self.aliases.insert(id, self.events.len() as usize) }
    }

    /// The stream after one more notification. What frames the stream and
    /// its documents leaves it as it is. A node is appended; a scalar and
    /// the start of a collection first have their anchor id lead to the
    /// place that they take.
    pub open spec fn record(self, notification: Notification, mark: Mark) -> Stream {
        match notification {
            Notification::Nothing
            | Notification::StreamStart
            | Notification::StreamEnd
            | Notification::DocumentStart
            | Notification::DocumentEnd => self,
            Notification::Alias(id) => self.append(Event::Alias(id), mark),
            Notification::Scalar(text, style, id, tag) => self.anchor(id).append(
                Event::Scalar(text, style, tag),
                mark,
            ),
            Notification::SequenceStart(id) => self.anchor(id).append(Event::SequenceStart, mark),
            Notification::SequenceEnd => self.append(Event::SequenceEnd, mark),
            Notification::MappingStart(id) => self.anchor(id).append(Event::MappingStart, mark),
            Notification::MappingEnd => self.append(Event::MappingEnd, mark),
        }
    }

    /// The stream after the notifications `seen`, in their order.
    pub open spec fn record_all(self, seen: Seq<(Notification, Mark)>) -> Stream
        decreases seen.len(),
    {
        if seen.len() == 0 {
            self
        } else {
            self.record_all(seen.drop_last()).record(seen.last().0, seen.last().1)
        }
    }
}

/// The collector of a stream's events.
#[derive(Debug, PartialEq, Eq)]
pub struct Loader {
    events: Vec<(Event, Mark)>,
    /// From anchor id to position in `events`.
    aliases: BTreeMap<usize, usize>,
}

impl View for Loader {
    type V = Stream;

    closed spec fn view(&self) -> Stream {
        Stream { events: self.events@, aliases: self.aliases@ }
    }
}

impl Loader {
    #[verifier::type_invariant]
    closed spec fn inv(&self) -> bool {
        self@.wf()
    }

    /// A collector that has seen nothing.
    pub fn new() -> (loader: Loader)
        ensures
            loader@ == Stream::empty(),
    {
        Loader { events: Vec::new(), aliases: BTreeMap::new() }
    }

    /// Takes one notification of the parser.
    pub fn on_event(&mut self, event: Notification, marker: Mark)
        ensures
            final(self)@ == old(self)@.record(event, marker),
            final(self)@.wf(),
    {
        broadcast use vstd::std_specs::btree::group_btree_axioms;

        proof {
            use_type_invariant(&*self);
        }
        let ghost before = self@;
        let mut taken = Loader::new();
        std::mem::swap(self, &mut taken);
        let Loader { events: mut events, aliases: mut aliases } = taken;
        let at = events.len();
        match event {
            Notification::Nothing
            | Notification::StreamStart
            | Notification::StreamEnd
            | Notification::DocumentStart
            | Notification::DocumentEnd => {},
            Notification::Alias(id) => {
                events.push((Event::Alias(id), marker));
            },
            Notification::Scalar(value, style, id, tag) => {
                aliases.insert(id, at);
                events.push((Event::Scalar(value, style, tag), marker));
            },
            Notification::SequenceStart(id) => {
                aliases.insert(id, at);
                events.push((Event::SequenceStart, marker));
            },
            Notification::SequenceEnd => {
                events.push((Event::SequenceEnd, marker));
            },
            Notification::MappingStart(id) => {
                aliases.insert(id, at);
                events.push((Event::MappingStart, marker));
            },
            Notification::MappingEnd => {
                events.push((Event::MappingEnd, marker));
            },
        }
        let kept = events.len();
        proof {
            let after = Stream { events: events@, aliases: aliases@ };
            assert(after.events.len() == kept);
            assert(after == before.record(event, marker));
            assert forall|id: usize| #[trigger] after.aliases.contains_key(id) implies after.aliases[id]
                < after.events.len() && after.events[after.aliases[id] as int].0.is_anchorable() by {
                if before.aliases.contains_key(id) {
                    assert(before.aliases[id] < before.events.len());
                }
            }
        }
        *self = Loader { events, aliases };
    }

    /// How many events were kept.
    pub fn len(&self) -> (n: usize)
        ensures
            n == self@.events.len(),
    {
        self.events.len()
    }

    /// Whether no event was kept.
    pub fn is_empty(&self) -> (b: bool)
        ensures
            b == (self@.events.len() == 0),
    {
        self.events.len() == 0
    }

    /// The event at `pos` with its place in the source, if there is one.
    pub fn get(&self, pos: usize) -> (r: Option<&(Event, Mark)>)
        ensures
            r == (if pos < self@.events.len() {
                Some(&self@.events[pos as int])
            } else {
                None
            }),
            self@.wf(),
    {
        proof {
            use_type_invariant(self);
        }
        if pos < self.events.len() {
            Some(&self.events[pos])
        } else {
            None
        }
    }

    /// The position to which the anchor id `id` leads, if a node carries it.
    pub fn target(&self, id: usize) -> (r: Option<usize>)
        ensures
            r == (if self@.aliases.contains_key(id) {
                Some(self@.aliases[id])
            } else {
                None
            }),
            self@.wf(),
    {
        broadcast use vstd::std_specs::btree::group_btree_axioms;

        proof {
            use_type_invariant(self);
        }
        match self.aliases.get(&id) {
            Some(pos) => Some(*pos),
            None => None,
        }
    }
}

/// Recording a notification keeps the stream well formed.
pub proof fn lemma_record_keeps_wf(stream: Stream, notification: Notification, mark: Mark)
    requires
        stream.wf(),
        stream.events.len() < usize::MAX,
    ensures
        stream.record(notification, mark).wf(),
{
    let after = stream.record(notification, mark);
    assert forall|id: usize| #[trigger] after.aliases.contains_key(id) implies after.aliases[id]
        < after.events.len() && after.events[after.aliases[id] as int].0.is_anchorable() by {
        if stream.aliases.contains_key(id) {
            assert(stream.aliases[id] < stream.events.len());
        }
    }
}

/// An anchor id leads to the node that carries it, not to a place after it:
/// once a scalar or the start of a collection with the id `id` is recorded,
/// `id` leads to the event that was appended for it.
pub proof fn lemma_anchor_names_its_node(stream: Stream, notification: Notification, mark: Mark)
    requires
        stream.events.len() < usize::MAX,
    ensures
        match notification {
            Notification::Scalar(text, style, id, tag) => {
                let after = stream.record(notification, mark);
                after.aliases.contains_key(id) && after.events[after.aliases[id] as int] == (
                    Event::Scalar(text, style, tag),
                    mark,
                )
            },
            Notification::SequenceStart(id) => {
                let after = stream.record(notification, mark);
                after.aliases.contains_key(id) && after.events[after.aliases[id] as int] == (
                    Event::SequenceStart,
                    mark,
                )
            },
            Notification::MappingStart(id) => {
                let after = stream.record(notification, mark);
                after.aliases.contains_key(id) && after.events[after.aliases[id] as int] == (
                    Event::MappingStart,
                    mark,
                )
            },
            _ => true,
        },
{
}

} // verus!
