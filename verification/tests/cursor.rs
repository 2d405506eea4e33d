use serde_yaml::decode::{
    Closing, CollectionVisitor, Content, Deserializer, Presence, Rest, UnitVariantVisitor, Variant,
    Visit, Walk, DEPTH_LIMIT,
};
use serde_yaml::error::{Error, ErrorKind, Expected, Unexpected};
use serde_yaml::event::{Event, Mark, Notification, ScalarStyle, Token};
use serde_yaml::loader::Loader;
use serde_yaml::scalar::Scalar;

fn at(index: usize) -> Mark {
    Mark { index, line: 1, col: index }
}

fn plain(text: &str) -> Notification {
    Notification::Scalar(text.to_string(), ScalarStyle::Plain, 0, None)
}

fn quoted(text: &str) -> Notification {
    Notification::Scalar(text.to_string(), ScalarStyle::DoubleQuoted, 0, None)
}

fn tagged(text: &str, suffix: &str) -> Notification {
    let tag = Token::Tag("!!".to_string(), suffix.to_string());
    Notification::Scalar(text.to_string(), ScalarStyle::Plain, 0, Some(tag))
}

fn stream(notifications: Vec<Notification>) -> Loader {
    let mut loader = Loader::new();
    for (i, notification) in notifications.into_iter().enumerate() {
        loader.on_event(notification, at(i));
    }
    loader
}

fn text_of<'a>(found: Visit<'a>) -> (Scalar, String) {
    match found {
        Visit::Scalar(kind, text) => (kind, text.clone()),
        other => panic!("no scalar: {:?}", other),
    }
}

#[test]
fn the_loader_drops_the_frame() {
    let loader = stream(vec![
        Notification::Nothing,
        Notification::StreamStart,
        Notification::DocumentStart,
        plain("a"),
        Notification::DocumentEnd,
        Notification::StreamEnd,
    ]);
    assert_eq!(loader.len(), 1);
    assert!(!loader.is_empty());
    assert_eq!(
        loader.get(0),
        Some(&(Event::Scalar("a".to_string(), ScalarStyle::Plain, None), at(3)))
    );
    assert_eq!(loader.get(1), None);
    assert!(Loader::new().is_empty());
    assert_eq!(Loader::new().len(), 0);
}

#[test]
fn an_anchor_leads_to_its_node() {
    let loader = stream(vec![
        Notification::SequenceStart(1),
        Notification::Scalar("x".to_string(), ScalarStyle::Plain, 2, None),
        Notification::MappingStart(3),
        Notification::MappingEnd,
        Notification::Alias(2),
        Notification::SequenceEnd,
    ]);
    assert_eq!(loader.len(), 6);
    assert_eq!(loader.target(1), Some(0));
    assert_eq!(loader.target(2), Some(1));
    assert_eq!(loader.target(3), Some(2));
    assert_eq!(loader.target(4), None);
    assert_eq!(loader.get(0), Some(&(Event::SequenceStart, at(0))));
    assert_eq!(loader.get(3), Some(&(Event::MappingEnd, at(3))));
    assert_eq!(loader.get(4), Some(&(Event::Alias(2), at(4))));
    assert_eq!(loader.get(5), Some(&(Event::SequenceEnd, at(5))));
}

#[test]
fn a_later_anchor_takes_the_id() {
    let loader = stream(vec![
        Notification::Scalar("x".to_string(), ScalarStyle::Plain, 7, None),
        Notification::Scalar("y".to_string(), ScalarStyle::Plain, 7, None),
    ]);
    assert_eq!(loader.target(7), Some(1));
}

#[test]
fn peek_next_and_jump() {
    let loader = stream(vec![
        Notification::Scalar("x".to_string(), ScalarStyle::Plain, 5, None),
        Notification::Alias(5),
    ]);
    let mut de = Deserializer::new(&loader);
    assert_eq!(de.pos, 0);
    assert_eq!(de.remaining_depth, DEPTH_LIMIT);
    let first = Event::Scalar("x".to_string(), ScalarStyle::Plain, None);
    assert_eq!(de.peek(), Ok((&first, at(0))));
    assert_eq!(de.pos, 0);
    assert_eq!(de.next(), Ok((&first, at(0))));
    assert_eq!(de.pos, 1);
    assert_eq!(de.next(), Ok((&Event::Alias(5), at(1))));
    assert_eq!(de.pos, 2);
    assert_eq!(de.peek(), Err(Error::end_of_stream()));
    assert_eq!(de.next(), Err(Error::end_of_stream()));
    assert_eq!(de.pos, 2);
    let sub = de.jump(5).unwrap();
    assert_eq!(sub.pos, 0);
    assert_eq!(sub.remaining_depth, de.remaining_depth);
    assert_eq!(de.jump(6), Err(Error::new(ErrorKind::UnresolvedAlias(6))));
    assert_eq!(de.end(), Ok(()));
    assert_eq!(sub.end(), Err(Error::more_than_one_document()));
}

#[test]
fn visit_says_what_begins() {
    let loader = stream(vec![
        Notification::SequenceStart(0),
        plain("12"),
        quoted("12"),
        Notification::MappingStart(0),
        Notification::MappingEnd,
        Notification::SequenceEnd,
    ]);
    let mut de = Deserializer::new(&loader);
    assert_eq!(de.visit(), Ok(Visit::Sequence));
    assert_eq!((de.pos, de.remaining_depth), (1, DEPTH_LIMIT - 1));
    assert_eq!(text_of(de.visit().unwrap()), (Scalar::Int(12), "12".to_string()));
    assert_eq!(text_of(de.visit().unwrap()), (Scalar::Str, "12".to_string()));
    assert_eq!((de.pos, de.remaining_depth), (3, DEPTH_LIMIT - 1));
    assert_eq!(de.visit(), Ok(Visit::Mapping));
    assert_eq!((de.pos, de.remaining_depth), (4, DEPTH_LIMIT - 2));
    assert!(de.is_at_end());
    assert_eq!(de.end_mapping(0), Ok(()));
    assert_eq!((de.pos, de.remaining_depth), (5, DEPTH_LIMIT - 1));
    assert!(de.is_at_end());
    assert_eq!(de.end_sequence(3), Ok(()));
    assert_eq!((de.pos, de.remaining_depth), (6, DEPTH_LIMIT));
    assert!(!de.is_at_end());
    assert_eq!(de.visit(), Err(Error::end_of_stream()));
    assert_eq!(de.end(), Ok(()));
}

#[test]
fn a_failure_gets_the_place_of_its_node() {
    let loader = stream(vec![plain("a"), tagged("yes", "bool")]);
    let mut de = Deserializer::new(&loader);
    de.pos = 1;
    let kind = ErrorKind::InvalidValue(Unexpected::Str("yes".to_string()), Expected::Boolean);
    assert_eq!(de.visit(), Err(Error { kind: kind.clone(), mark: None }));
    assert_eq!(de.pos, 2);
    de.pos = 1;
    assert_eq!(de.deserialize(), Err(Error { kind: kind.clone(), mark: Some(at(1)) }));
    de.pos = 1;
    assert_eq!(de.survey(), Walk::Failed(Error { kind: kind.clone(), mark: Some(at(1)) }));
    assert_eq!(de.ignore(), Err(Error { kind: kind, mark: Some(at(1)) }));
    assert_eq!(de.pos, 1);
    de.pos = 2;
    assert_eq!(de.deserialize(), Err(Error::end_of_stream()));
    let marked = Error::end_of_stream().fix_marker(at(4));
    assert_eq!(marked.mark, Some(at(4)));
    assert_eq!(marked.fix_marker(at(5)).mark, Some(at(4)));
}

#[test]
fn an_alias_is_followed() {
    let loader = stream(vec![
        Notification::SequenceStart(0),
        Notification::Scalar("7".to_string(), ScalarStyle::Plain, 1, None),
        Notification::Alias(1),
        Notification::Alias(1),
        Notification::Alias(9),
        Notification::SequenceEnd,
    ]);
    let mut de = Deserializer::new(&loader);
    de.pos = 2;
    let first = match de.visit() {
        Ok(Visit::Alias(sub)) => sub,
        other => panic!("no alias: {:?}", other),
    };
    assert_eq!(de.pos, 3);
    let second = match de.visit() {
        Ok(Visit::Alias(sub)) => sub,
        other => panic!("no alias: {:?}", other),
    };
    assert_eq!(de.pos, 4);
    assert_eq!(first, second);
    assert_eq!(first.pos, 1);
    let mut first = first;
    let mut second = second;
    assert_eq!(text_of(first.visit().unwrap()), (Scalar::Int(7), "7".to_string()));
    assert_eq!(text_of(second.visit().unwrap()), (Scalar::Int(7), "7".to_string()));
    assert_eq!(de.pos, 4);
    assert_eq!(de.visit(), Err(Error::new(ErrorKind::UnresolvedAlias(9))));
    assert_eq!(de.pos, 5);
    de.pos = 4;
    assert_eq!(
        de.deserialize(),
        Err(Error { kind: ErrorKind::UnresolvedAlias(9), mark: Some(at(4)) })
    );
    de.pos = 2;
    assert_eq!(de.survey(), Walk::Done(3));
    assert_eq!(de.ignore(), Ok(()));
    assert_eq!(de.pos, 3);
}

#[test]
fn an_unresolved_alias_fails_the_walk() {
    let loader = stream(vec![
        Notification::SequenceStart(0),
        plain("a"),
        Notification::Alias(9),
        Notification::SequenceEnd,
    ]);
    let mut de = Deserializer::new(&loader);
    let failure = Error { kind: ErrorKind::UnresolvedAlias(9), mark: Some(at(2)) };
    assert_eq!(de.survey(), Walk::Failed(failure.clone()));
    assert_eq!(de.visit(), Ok(Visit::Sequence));
    assert_eq!(de.survey_rest(Closing::Sequence, 0), Rest::Failed(failure.clone()));
    assert_eq!(de.end_sequence(0), Err(failure));
    assert_eq!(de.pos, 1);
}

#[test]
fn absent_values() {
    let loader = stream(vec![
        plain("~"),
        plain("null"),
        quoted("null"),
        plain("x"),
        tagged("~", "null"),
        tagged("null", "null"),
        tagged("nil", "null"),
        tagged("~", "str"),
        Notification::Scalar("~".to_string(), ScalarStyle::Plain, 0, Some(Token::Other)),
        Notification::SequenceStart(0),
        Notification::SequenceEnd,
        Notification::MappingStart(0),
        Notification::MappingEnd,
        Notification::Scalar("~".to_string(), ScalarStyle::Plain, 4, None),
        Notification::Alias(4),
    ]);
    let mut de = Deserializer::new(&loader);
    let answers = [
        (0, Ok(Presence::Absent), 1),
        (1, Ok(Presence::Absent), 2),
        (2, Ok(Presence::Present), 2),
        (3, Ok(Presence::Present), 3),
        (4, Ok(Presence::Absent), 5),
        (5, Ok(Presence::Absent), 6),
        (7, Ok(Presence::Present), 7),
        (8, Ok(Presence::Absent), 9),
        (9, Ok(Presence::Present), 9),
        (11, Ok(Presence::Present), 11),
        (15, Err(Error::end_of_stream()), 15),
    ];
    for (pos, answer, after) in answers.iter() {
        de.pos = *pos;
        assert_eq!(de.deserialize_option(), *answer, "at {}", pos);
        assert_eq!(de.pos, *after, "after {}", pos);
    }
    de.pos = 6;
    let kind = ErrorKind::InvalidValue(Unexpected::Str("nil".to_string()), Expected::Null);
    assert_eq!(de.deserialize_option(), Err(Error { kind, mark: None }));
    assert_eq!(de.pos, 6);
    de.pos = 14;
    let mut sub = match de.deserialize_option() {
        Ok(Presence::Alias(sub)) => sub,
        other => panic!("no alias: {:?}", other),
    };
    assert_eq!(de.pos, 15);
    assert_eq!(sub.pos, 13);
    assert_eq!(sub.deserialize_option(), Ok(Presence::Absent));
    assert_eq!(sub.pos, 14);
}

#[test]
fn a_bare_scalar_names_a_unit_variant() {
    let loader = stream(vec![plain("Foo")]);
    let mut de = Deserializer::new(&loader);
    assert_eq!(de.deserialize_enum(), Ok(Variant::Unit));
    assert_eq!(de.pos, 0);
    assert_eq!(text_of(de.deserialize().unwrap()), (Scalar::Str, "Foo".to_string()));
    assert_eq!(UnitVariantVisitor.visit_unit(), Ok(()));
    assert_eq!(de.end(), Ok(()));
    let unit = Unexpected::UnitVariant;
    assert_eq!(
        UnitVariantVisitor.visit_newtype_seed(),
        Err(Error::new(ErrorKind::InvalidType(unit.clone(), Expected::NewtypeVariant)))
    );
    assert_eq!(
        UnitVariantVisitor.visit_tuple(),
        Err(Error::new(ErrorKind::InvalidType(unit.clone(), Expected::TupleVariant)))
    );
    assert_eq!(
        UnitVariantVisitor.visit_struct(),
        Err(Error::new(ErrorKind::InvalidType(unit, Expected::StructVariant)))
    );
    assert_ne!(Content::Unit, Content::Newtype);
}

#[test]
fn a_singleton_map_names_a_variant_with_content() {
    let loader = stream(vec![
        Notification::MappingStart(0),
        plain("Bar"),
        plain("42"),
        Notification::MappingEnd,
    ]);
    let mut de = Deserializer::new(&loader);
    assert_eq!(de.deserialize_enum(), Ok(Variant::Mapping));
    assert_eq!((de.pos, de.remaining_depth), (1, DEPTH_LIMIT - 1));
    assert_eq!(text_of(de.deserialize().unwrap()), (Scalar::Str, "Bar".to_string()));
    assert_eq!(text_of(de.deserialize().unwrap()), (Scalar::Int(42), "42".to_string()));
    assert_eq!(de.end_mapping(1), Ok(()));
    assert_eq!((de.pos, de.remaining_depth), (4, DEPTH_LIMIT));
    assert_eq!(de.end(), Ok(()));
}

#[test]
fn a_map_of_two_keys_is_no_variant() {
    let loader = stream(vec![
        Notification::MappingStart(0),
        plain("Bar"),
        plain("42"),
        plain("Baz"),
        plain("~"),
        Notification::MappingEnd,
    ]);
    let mut de = Deserializer::new(&loader);
    assert_eq!(de.deserialize_enum(), Ok(Variant::Mapping));
    assert_eq!(text_of(de.deserialize().unwrap()), (Scalar::Str, "Bar".to_string()));
    // A variant without content wants a null here, and finds an integer.
    let mut content = de;
    assert_eq!(text_of(content.deserialize().unwrap()).0, Scalar::Int(42));
    // A variant with one value reads it, and then finds a second entry.
    assert_eq!(text_of(de.deserialize().unwrap()).0, Scalar::Int(42));
    assert_eq!(
        de.end_mapping(1),
        Err(Error::new(ErrorKind::InvalidLength(2, Expected::Mapping(1))))
    );
    assert_eq!(de.pos, 6);
}

#[test]
fn a_sequence_is_no_variant() {
    let loader = stream(vec![Notification::SequenceStart(3), Notification::SequenceEnd, Notification::Alias(3)]);
    let mut de = Deserializer::new(&loader);
    let failure =
        Error::new(ErrorKind::InvalidType(Unexpected::Sequence, Expected::StringOrSingletonMap));
    assert_eq!(de.deserialize_enum(), Err(failure.clone()));
    assert_eq!(de.pos, 0);
    de.pos = 2;
    let mut sub = match de.deserialize_enum() {
        Ok(Variant::Alias(sub)) => sub,
        other => panic!("no alias: {:?}", other),
    };
    assert_eq!(de.pos, 3);
    assert_eq!(sub.deserialize_enum(), Err(failure));
    de.pos = 3;
    assert_eq!(de.deserialize_enum(), Err(Error::end_of_stream()));
}

#[test]
fn items_are_counted() {
    let loader = stream(vec![
        Notification::SequenceStart(0),
        plain("a"),
        Notification::SequenceEnd,
        Notification::MappingStart(0),
        plain("k"),
        plain("v"),
        Notification::MappingEnd,
    ]);
    let mut de = Deserializer::new(&loader);
    let mut seq = CollectionVisitor::new();
    de.pos = 1;
    assert_eq!(seq.visit_seed(&de), Ok(true));
    assert_eq!(seq.len, 1);
    assert_eq!(de.pos, 1);
    de.pos = 2;
    assert_eq!(seq.visit_seed(&de), Ok(false));
    assert_eq!(seq.len, 1);
    assert_eq!(seq.visit_key_seed(&de), Ok(true));
    assert_eq!(seq.len, 2);
    let mut map = CollectionVisitor::new();
    de.pos = 4;
    assert_eq!(map.visit_key_seed(&de), Ok(true));
    de.pos = 6;
    assert_eq!(map.visit_key_seed(&de), Ok(false));
    assert_eq!(map.visit(&de, Closing::Sequence), Ok(true));
    assert_eq!(map.len, 2);
    de.pos = 7;
    assert_eq!(map.visit_seed(&de), Err(Error::end_of_stream()));
    assert_eq!(map.visit_key_seed(&de), Err(Error::end_of_stream()));
    assert_eq!(map.len, 2);
}

#[test]
fn unread_items_are_walked_over() {
    let loader = stream(vec![
        Notification::SequenceStart(0),
        plain("a"),
        Notification::SequenceStart(0),
        plain("b"),
        Notification::MappingStart(0),
        plain("k"),
        plain("v"),
        Notification::MappingEnd,
        Notification::SequenceEnd,
        plain("c"),
        Notification::SequenceEnd,
    ]);
    let mut de = Deserializer::new(&loader);
    assert_eq!(de.survey(), Walk::Done(11));
    assert_eq!(de.visit(), Ok(Visit::Sequence));
    assert_eq!(de.survey_rest(Closing::Sequence, 0), Rest::Closed(11, 3));
    assert_eq!(de.survey_rest(Closing::Sequence, 5), Rest::Closed(11, 8));
    assert_eq!(de.survey_item(Closing::Sequence), Walk::Done(2));
    assert_eq!(de.ignore(), Ok(()));
    assert_eq!(de.pos, 2);
    assert_eq!(de.survey(), Walk::Done(9));
    let mut other = de;
    assert_eq!(
        other.end_sequence(1),
        Err(Error::new(ErrorKind::InvalidLength(3, Expected::Sequence(1))))
    );
    assert_eq!((other.pos, other.remaining_depth), (11, DEPTH_LIMIT));
    assert_eq!(de.ignore(), Ok(()));
    assert_eq!(de.ignore(), Ok(()));
    assert_eq!((de.pos, de.remaining_depth), (10, DEPTH_LIMIT - 1));
    assert_eq!(de.end_sequence(3), Ok(()));
    assert_eq!((de.pos, de.remaining_depth), (11, DEPTH_LIMIT));
    de.pos = 5;
    de.remaining_depth = 3;
    assert_eq!(de.survey_item(Closing::Mapping), Walk::Done(7));
    assert_eq!(de.survey_rest(Closing::Mapping, 0), Rest::Closed(8, 1));
    assert_eq!(
        de.end_mapping(0),
        Err(Error::new(ErrorKind::InvalidLength(1, Expected::Mapping(0))))
    );
    assert_eq!((de.pos, de.remaining_depth), (8, 4));
    de.pos = 7;
    assert_eq!(de.close(Closing::Mapping, 1), Ok(()));
    de.pos = 7;
    de.remaining_depth = usize::MAX;
    assert_eq!(de.close(Closing::Mapping, 1), Ok(()));
    assert_eq!(de.remaining_depth, usize::MAX);
}

#[test]
fn the_number_found_stops_at_the_largest() {
    let loader = stream(vec![plain("a"), plain("b"), Notification::SequenceEnd]);
    let mut de = Deserializer::new(&loader);
    assert_eq!(de.survey_rest(Closing::Sequence, usize::MAX), Rest::Closed(3, usize::MAX));
    assert_eq!(
        de.end_sequence(usize::MAX - 1),
        Err(Error::new(ErrorKind::InvalidLength(usize::MAX, Expected::Sequence(usize::MAX - 1))))
    );
}

#[test]
fn events_that_run_out() {
    let loader = stream(vec![
        Notification::SequenceStart(0),
        plain("a"),
        Notification::MappingStart(0),
        plain("k"),
    ]);
    let mut de = Deserializer::new(&loader);
    assert_eq!(
        de.survey(),
        Walk::Failed(Error { kind: ErrorKind::EndOfStream, mark: Some(at(2)) })
    );
    de.pos = 1;
    assert_eq!(
        de.end_sequence(0),
        Err(Error { kind: ErrorKind::EndOfStream, mark: Some(at(2)) })
    );
    de.pos = 4;
    assert_eq!(de.end_sequence(0), Err(Error::end_of_stream()));
    assert_eq!(de.end_mapping(0), Err(Error::end_of_stream()));
    assert_eq!(de.ignore(), Err(Error::end_of_stream()));
}

#[test]
fn stray_ends_are_told_apart() {
    let loader = stream(vec![
        Notification::SequenceStart(0),
        Notification::MappingStart(0),
        plain("k"),
        Notification::MappingEnd,
        Notification::MappingEnd,
        Notification::SequenceEnd,
    ]);
    let mut de = Deserializer::new(&loader);
    assert_eq!(de.survey(), Walk::Stray);
    de.pos = 1;
    assert_eq!(de.survey(), Walk::Stray);
    de.pos = 2;
    assert_eq!(de.survey_item(Closing::Mapping), Walk::Stray);
    assert_eq!(de.survey_rest(Closing::Mapping, 0), Rest::Stray);
    de.pos = 3;
    assert!(de.is_at_end());
    assert_eq!(de.survey(), Walk::Stray);
    assert_eq!(de.survey_rest(Closing::Sequence, 0), Rest::Stray);
    assert_eq!(de.survey_rest(Closing::Mapping, 0), Rest::Closed(4, 0));
}

#[test]
fn nesting_has_a_limit() {
    let mut notifications = Vec::new();
    for _ in 0..DEPTH_LIMIT + 1 {
        notifications.push(Notification::SequenceStart(0));
    }
    for _ in 0..DEPTH_LIMIT + 1 {
        notifications.push(Notification::SequenceEnd);
    }
    let loader = stream(notifications);
    let mut de = Deserializer::new(&loader);
    assert_eq!(
        de.survey(),
        Walk::Failed(Error { kind: ErrorKind::RecursionLimitExceeded, mark: Some(at(DEPTH_LIMIT)) })
    );
    de.pos = 1;
    assert_eq!(de.survey(), Walk::Done(2 * DEPTH_LIMIT + 1));
    de.pos = DEPTH_LIMIT;
    de.remaining_depth = 0;
    assert_eq!(de.visit(), Err(Error::new(ErrorKind::RecursionLimitExceeded)));
    assert_eq!((de.pos, de.remaining_depth), (DEPTH_LIMIT + 1, 0));
}

#[test]
fn a_mapping_at_the_limit_is_no_variant() {
    let loader = stream(vec![Notification::MappingStart(0), Notification::MappingEnd]);
    let mut de = Deserializer::new(&loader);
    de.remaining_depth = 0;
    assert_eq!(de.deserialize_enum(), Err(Error::new(ErrorKind::RecursionLimitExceeded)));
    assert_eq!(de.pos, 0);
    assert_eq!(de.visit(), Err(Error::new(ErrorKind::RecursionLimitExceeded)));
}

#[test]
fn an_anchor_inside_itself_ends_at_the_limit() {
    let loader = stream(vec![
        Notification::SequenceStart(1),
        Notification::Alias(1),
        Notification::SequenceEnd,
    ]);
    let de = Deserializer::new(&loader);
    match de.survey() {
        Walk::Failed(error) => assert_eq!(error.kind, ErrorKind::RecursionLimitExceeded),
        other => panic!("no failure: {:?}", other),
    }
}
