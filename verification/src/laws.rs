//! What holds of the resolver and of the cursor on every input.

use vstd::prelude::*;
use crate::decode::{one_more, Closing, Deserializer, Rest, Visit, Walk};
use crate::error::{Error, Expected};
use crate::event::{Event, Mark, Notification, ScalarStyle, Token};
use crate::loader::Stream;
use crate::number::{all_digits, digit_of, int_of, unsigned_part};
use crate::scalar::{inferred, is_null_text, mismatch, resolved, Scalar};

verus! {

/// Quoting suppresses inference: a scalar that is not plain is a string,
/// whatever its text and its tag.
pub proof fn lemma_quoted_is_string(text: String, style: ScalarStyle, tag: Option<Token>)
    requires
        style != ScalarStyle::Plain,
    ensures
        resolved(text, style, tag) == Ok::<Scalar, Error>(Scalar::Str),
{
}

/// An explicit tag overrides inference: a plain scalar with one of the tags
/// `!!bool`, `!!int`, `!!float` and `!!null` is of the kind that the tag
/// names, or fails with `InvalidValue` and the name of that kind. What its
/// text would be without the tag plays no part.
pub proof fn lemma_tag_decides(text: String, handle: String, suffix: String)
    requires
        handle@ == "!!"@,
    ensures
        ({
            let r = resolved(text, ScalarStyle::Plain, Some(Token::Tag(handle, suffix)));
            &&& suffix@ == "bool"@ ==> (r matches Ok(Scalar::Bool(_))) || r == Err::<Scalar, Error>(
                mismatch(text, Expected::Boolean),
            )
            &&& suffix@ == "int"@ ==> (r matches Ok(Scalar::Int(_))) || r == Err::<Scalar, Error>(
                mismatch(text, Expected::Integer),
            )
            &&& suffix@ == "float"@ ==> r == Ok::<Scalar, Error>(Scalar::Float) || r == Err::<
                Scalar,
                Error,
            >(mismatch(text, Expected::Float))
            &&& suffix@ == "null"@ ==> r == Ok::<Scalar, Error>(Scalar::Null) || r == Err::<
                Scalar,
                Error,
            >(mismatch(text, Expected::Null))
        }),
{
    reveal_strlit("bool");
    reveal_strlit("int");
    reveal_strlit("float");
    reveal_strlit("null");
    if suffix@ == "int"@ {
        assert(suffix@.len() == 3);
    }
    if suffix@ == "float"@ {
        assert(suffix@.len() == 5);
    }
    if suffix@ == "null"@ {
        assert(suffix@[0] == 'n');
    }
}

/// Integers come before floats: an untagged plain scalar whose text is a
/// decimal integer that an `i64` holds is an integer.
pub proof fn lemma_integers_before_floats(s: Seq<char>)
    requires
        int_of(s, 10) is Some,
    ensures
        inferred(s) is Int,
{
    reveal_strlit("~");
    reveal_strlit("null");
    reveal_strlit("true");
    reveal_strlit("false");
    let digits = unsigned_part(s);
    assert(all_digits(digits, 10));
    if s == "~"@ || s == "null"@ || s == "true"@ || s == "false"@ {
        assert(digits == s);
        assert(digit_of(digits[0], 10) is Some);
    }
}

/// Moving the cursor by one of the single steps keeps it inside the
/// stream: it is never further than behind the last event.
pub proof fn lemma_cursor_stays_inside(de: Deserializer)
    requires
        de.doc@.wf(),
        de.pos <= de.doc@.events.len(),
    ensures
        de.after_visit().pos <= de.doc@.events.len(),
        de.after_option().pos <= de.doc@.events.len(),
        de.after_enum().pos <= de.doc@.events.len(),
        de.after_visit().doc == de.doc,
        de.after_option().doc == de.doc,
        de.after_enum().doc == de.doc,
{
}

/// Walking over a node ends behind at least one event and inside the
/// stream.
pub proof fn lemma_walk_advances(de: Deserializer)
    requires
        de.doc@.wf(),
    ensures
        de.walk() matches Walk::Done(end) ==> de.pos < end <= de.doc@.events.len(),
    decreases de.remaining_depth, de.phase(), 0nat,
{
    match de.current() {
        Some((Event::SequenceStart, _)) => {
            if de.remaining_depth > 0 {
                lemma_rest_advances(de.entered(), Closing::Sequence, 0);
            }
        },
        Some((Event::MappingStart, _)) => {
            if de.remaining_depth > 0 {
                lemma_rest_advances(de.entered(), Closing::Mapping, 0);
            }
        },
        _ => {},
    }
}

/// Walking over an item of a collection ends behind at least one event and
/// inside the stream.
pub proof fn lemma_item_advances(de: Deserializer, closing: Closing)
    requires
        de.doc@.wf(),
    ensures
        de.item(closing) matches Walk::Done(end) ==> de.pos < end <= de.doc@.events.len(),
{
    lemma_walk_advances(de);
    match closing {
        Closing::Sequence => {},
        Closing::Mapping => {
            if let Walk::Done(value) = de.walk() {
                lemma_walk_advances(de.moved(value));
            }
        },
    }
}

/// Walking to the end of a collection ends behind its end event and inside
/// the stream.
pub proof fn lemma_rest_advances(de: Deserializer, closing: Closing, seen: usize)
    requires
        de.doc@.wf(),
    ensures
        de.rest(closing, seen) matches Rest::Closed(end, _) ==> de.pos < end
            <= de.doc@.events.len(),
    decreases de.remaining_depth, 2nat, de.doc@.events.len() - de.pos,
{
    match de.current() {
        None => {},
        Some((event, _)) => {
            if !closing.closes(event) {
                if let Walk::Done(next) = de.item(closing) {
                    if de.pos < next <= de.doc@.events.len() {
                        lemma_rest_advances(de.moved(next), closing, one_more(seen));
                    }
                }
            }
        },
    }
}

/// The walk to the end of a collection goes item by item: before an event
/// that does not close the collection, it is the walk from behind the item
/// that stands there, with one item more seen.
pub proof fn lemma_rest_goes_item_by_item(de: Deserializer, closing: Closing, seen: usize)
    requires
        de.doc@.wf(),
        de.current() matches Some((event, _)) && !closing.closes(event),
    ensures
        de.rest(closing, seen) == (match de.item(closing) {
            Walk::Done(next) => de.moved(next).rest(closing, one_more(seen)),
            Walk::Failed(e) => Rest::Failed(e),
            Walk::Stray => Rest::Stray,
        }),
{
    lemma_item_advances(de, closing);
}

/// Alias sharing: two aliases to one anchor id lead to the same node.
/// Whatever is decoded behind the first is decoded behind the second, and
/// each alias leaves its own cursor just behind itself.
pub proof fn lemma_alias_sharing(first: Deserializer, second: Deserializer, id: usize)
    requires
        first.doc == second.doc,
        first.remaining_depth == second.remaining_depth,
        first.current() matches Some((Event::Alias(i), _)) && i == id,
        second.current() matches Some((Event::Alias(i), _)) && i == id,
    ensures
        first.visit_result() == second.visit_result(),
        first.option_result() == second.option_result(),
        first.enum_result() == second.enum_result(),
        first.visit_result() matches Ok(Visit::Alias(sub)) ==> sub.pos == first.doc@.aliases[id]
            && sub.doc == first.doc,
        first.after_visit() == first.stepped(),
        second.after_visit() == second.stepped(),
        first.walk() is Done <==> second.walk() is Done,
        first.walk() is Stray <==> second.walk() is Stray,
{
}

/// A stream without events, and a cursor behind the last event, answer
/// every question with `EndOfStream`.
pub proof fn lemma_nothing_left(de: Deserializer)
    requires
        de.pos >= de.doc@.events.len(),
    ensures
        de.visit_result() is Err,
        de.option_result() is Err,
        de.enum_result() is Err,
        de.walk() is Failed,
        !de.at_end(),
{
}

/// A null that stands for an absent value is a null to the resolver too,
/// and a scalar that is not plain never stands for an absent value.
pub proof fn lemma_absent_is_null(text: String, style: ScalarStyle, tag: Option<Token>)
    ensures
        Deserializer::scalar_is_absent(text, style, tag) == Ok::<bool, Error>(true) ==> resolved(
            text,
            style,
            tag,
        ) == Ok::<Scalar, Error>(Scalar::Null) && is_null_text(text@),
        style != ScalarStyle::Plain ==> Deserializer::scalar_is_absent(text, style, tag) == Ok::<
            bool,
            Error,
        >(false),
{
    reveal_strlit("bool");
    reveal_strlit("int");
    reveal_strlit("float");
    reveal_strlit("null");
    match tag {
        Some(Token::Tag(handle, suffix)) => {
            if suffix@ == "null"@ {
                assert(suffix@[0] == 'n');
                assert(suffix@.len() == 4);
            }
        },
        _ => {},
    }
}

/// Where the node that begins at `pos` ends, by the nesting of the events
/// alone: a scalar and an alias are one event, a collection reaches to the
/// end event that closes it. `None` where no node begins at `pos` or the
/// events do not nest.
pub open spec fn node_end(events: Seq<(Event, Mark)>, pos: int) -> Option<int>
    decreases events.len() - pos, 1nat,
{
    if 0 <= pos < events.len() {
        match events[pos].0 {
            Event::Alias(_) => Some(pos + 1),
            Event::Scalar(_, _, _) => Some(pos + 1),
            Event::SequenceStart => collection_end(events, pos + 1, Closing::Sequence),
            Event::MappingStart => collection_end(events, pos + 1, Closing::Mapping),
            _ => None,
        }
    } else {
        None
    }
}

/// Where the collection ends that is open at `pos`, with an item or its end
/// event at `pos`.
pub open spec fn collection_end(events: Seq<(Event, Mark)>, pos: int, closing: Closing) -> Option<
    int,
>
    decreases events.len() - pos, 3nat,
{
    if 0 <= pos < events.len() {
        if closing.closes(events[pos].0) {
            Some(pos + 1)
        } else {
            match item_end(events, pos, closing) {
                Some(next) => if pos < next <= events.len() {
                    collection_end(events, next, closing)
                } else {
                    None
                },
                None => None,
            }
        }
    } else {
        None
    }
}

/// Where the item that begins at `pos` ends: one node in a sequence, a key
/// and a value in a mapping.
pub open spec fn item_end(events: Seq<(Event, Mark)>, pos: int, closing: Closing) -> Option<int>
    decreases events.len() - pos, 2nat,
{
    match closing {
        Closing::Sequence => node_end(events, pos),
        Closing::Mapping => match node_end(events, pos) {
            Some(value) => if pos < value <= events.len() {
                node_end(events, value)
            } else {
                None
            },
            None => None,
        },
    }
}

/// Walking over a node ends exactly where the node ends, and never among
/// the events of what follows it. This holds also where aliases were
/// followed on the way: they lead away and back.
pub proof fn lemma_walk_ends_with_the_node(de: Deserializer)
    requires
        de.doc@.wf(),
    ensures
        de.walk() matches Walk::Done(end) ==> node_end(de.doc@.events, de.pos as int) == Some(
            end as int,
        ),
    decreases de.remaining_depth, de.phase(), 0nat,
{
    match de.current() {
        Some((Event::SequenceStart, _)) => {
            if de.remaining_depth > 0 {
                lemma_rest_ends_with_the_collection(de.entered(), Closing::Sequence, 0);
            }
        },
        Some((Event::MappingStart, _)) => {
            if de.remaining_depth > 0 {
                lemma_rest_ends_with_the_collection(de.entered(), Closing::Mapping, 0);
            }
        },
        _ => {},
    }
}

/// Walking over an item ends exactly where the item ends.
pub proof fn lemma_item_ends_with_the_item(de: Deserializer, closing: Closing)
    requires
        de.doc@.wf(),
    ensures
        de.item(closing) matches Walk::Done(end) ==> item_end(
            de.doc@.events,
            de.pos as int,
            closing,
        ) == Some(end as int),
    decreases de.remaining_depth, 1nat, 1nat,
{
    lemma_walk_ends_with_the_node(de);
    lemma_walk_advances(de);
    match closing {
        Closing::Sequence => {},
        Closing::Mapping => {
            if let Walk::Done(value) = de.walk() {
                lemma_walk_ends_with_the_node(de.moved(value));
            }
        },
    }
}

/// Walking to the end of a collection ends exactly behind the end event
/// that closes it.
pub proof fn lemma_rest_ends_with_the_collection(de: Deserializer, closing: Closing, seen: usize)
    requires
        de.doc@.wf(),
    ensures
        de.rest(closing, seen) matches Rest::Closed(end, _) ==> collection_end(
            de.doc@.events,
            de.pos as int,
            closing,
        ) == Some(end as int),
    decreases de.remaining_depth, 2nat, de.doc@.events.len() - de.pos,
{
    match de.current() {
        None => {},
        Some((event, _)) => {
            if !closing.closes(event) {
                if let Walk::Done(next) = de.item(closing) {
                    lemma_item_ends_with_the_item(de, closing);
                    if de.pos < next <= de.doc@.events.len() {
                        lemma_rest_ends_with_the_collection(
                            de.moved(next),
                            closing,
                            one_more(seen),
                        );
                    }
                }
            }
        },
    }
}

/// The events that were collected stay as they are: recording a
/// notification changes none of them and appends at most one.
pub proof fn lemma_record_extends(stream: Stream, notification: Notification, mark: Mark)
    ensures
        ({
            let after = stream.record(notification, mark);
            &&& stream.events.len() <= after.events.len() <= stream.events.len() + 1
            &&& after.events.take(stream.events.len() as int) == stream.events
            &&& (notification is Nothing || notification is StreamStart || notification is StreamEnd
                || notification is DocumentStart || notification is DocumentEnd) <==> after
                == stream
        }),
{
    let after = stream.record(notification, mark);
    assert(after.events.take(stream.events.len() as int) =~= stream.events);
}

/// The events nest: wherever an event stands that is no end event, a node
/// begins that ends inside the stream. So it is in what a parser reports.
pub open spec fn nests(events: Seq<(Event, Mark)>) -> bool {
    forall|pos: int|
        0 <= pos < events.len() && !events[pos].0.is_end() ==> (#[trigger] node_end(
            events,
            pos,
        )) is Some
}

/// Where the events nest, no walk over a node meets a stray end event: it
/// is done or it fails.
pub proof fn lemma_nested_walk_never_strays(de: Deserializer)
    requires
        de.doc@.wf(),
        nests(de.doc@.events),
        !de.at_end(),
    ensures
        !(de.walk() is Stray),
    decreases de.remaining_depth, de.phase(), 0nat,
{
    let events = de.doc@.events;
    match de.current() {
        None => {},
        Some((event, _)) => {
            assert(node_end(events, de.pos as int) is Some);
            match event {
                Event::Alias(id) => {
                    if let Ok(sub) = de.jumped(id) {
                        assert(de.doc@.aliases.contains_key(id));
                        assert(sub.current() is Some);
                        lemma_nested_walk_never_strays(sub);
                    }
                },
                Event::SequenceStart => {
                    if de.remaining_depth > 0 {
                        lemma_nested_rest_never_strays(de.entered(), Closing::Sequence, 0);
                    }
                },
                Event::MappingStart => {
                    if de.remaining_depth > 0 {
                        lemma_nested_rest_never_strays(de.entered(), Closing::Mapping, 0);
                    }
                },
                _ => {},
            }
        },
    }
}

/// Where the events nest, no walk over an item that ends inside the stream
/// meets a stray end event.
pub proof fn lemma_nested_item_never_strays(de: Deserializer, closing: Closing)
    requires
        de.doc@.wf(),
        nests(de.doc@.events),
        item_end(de.doc@.events, de.pos as int, closing) is Some,
    ensures
        !(de.item(closing) is Stray),
    decreases de.remaining_depth, 1nat, 1nat,
{
    let events = de.doc@.events;
    assert(node_end(events, de.pos as int) is Some);
    lemma_nested_walk_never_strays(de);
    lemma_walk_ends_with_the_node(de);
    lemma_walk_advances(de);
    match closing {
        Closing::Sequence => {},
        Closing::Mapping => {
            if let Walk::Done(value) = de.walk() {
                assert(node_end(events, value as int) is Some);
                lemma_nested_walk_never_strays(de.moved(value));
            }
        },
    }
}

/// Where the events nest, no walk to the end of a collection that is closed
/// inside the stream meets a stray end event. The collections that `visit`
/// and `deserialize_enum` enter are such, and stay such behind each item
/// that was read: so closing them is always allowed.
pub proof fn lemma_nested_rest_never_strays(de: Deserializer, closing: Closing, seen: usize)
    requires
        de.doc@.wf(),
        nests(de.doc@.events),
        collection_end(de.doc@.events, de.pos as int, closing) is Some,
    ensures
        !(de.rest(closing, seen) is Stray),
    decreases de.remaining_depth, 2nat, de.doc@.events.len() - de.pos,
{
    match de.current() {
        None => {},
        Some((event, _)) => {
            if !closing.closes(event) {
                lemma_nested_item_never_strays(de, closing);
                lemma_item_ends_with_the_item(de, closing);
                lemma_item_advances(de, closing);
                if let Walk::Done(next) = de.item(closing) {
                    lemma_nested_rest_never_strays(de.moved(next), closing, one_more(seen));
                }
            }
        },
    }
}

} // verus!
