//! From text to a stream of events: the text is handed to the YAML parser of
//! the `yaml_rust` crate, and what it reports is collected.

use vstd::prelude::*;
use vstd::string::StringSliceAdditionalSpecFns;
use std::str::Chars;
use yaml_rust::parser::Event as YamlEvent;
use yaml_rust::parser::Parser;
use yaml_rust::scanner::{Marker, ScanError, TEncoding, TScalarStyle, TokenType};
use crate::error::{Error, ErrorKind};
use crate::event::{Mark, Notification, ScalarStyle, Token};
use crate::loader::{Loader, Stream};

verus! {

/// `yaml_rust::parser::Parser`, the parser of YAML text.
#[verifier::external_type_specification]
#[verifier::external_body]
#[verifier::reject_recursive_types(T)]
pub struct ExParser<T>(Parser<T>);

/// `yaml_rust::scanner::Marker`, a place in the text.
#[verifier::external_type_specification]
#[verifier::external_body]
pub struct ExMarker(Marker);

/// `yaml_rust::scanner::ScanError`, the parser's failure.
#[verifier::external_type_specification]
#[verifier::external_body]
pub struct ExScanError(ScanError);

/// `yaml_rust::parser::Event`, what that parser reports, with its variants.
#[verifier::external_type_specification]
pub struct ExYamlEvent(YamlEvent);

/// `yaml_rust::scanner::TScalarStyle`, how a scalar was written, with its
/// variants.
#[verifier::external_type_specification]
pub struct ExTScalarStyle(TScalarStyle);

/// `yaml_rust::scanner::TokenType`, the kinds of token of the scanner, with
/// its variants.
#[verifier::external_type_specification]
pub struct ExTokenType(TokenType);

/// `yaml_rust::scanner::TEncoding`, the encodings that the scanner knows.
#[verifier::external_type_specification]
pub struct ExTEncoding(TEncoding);

/// What the parser reports at its `n`-th pull over `text`, the pulls counted
/// from zero: its event and the place of it, or its failure.
pub uninterp spec fn reported(text: Seq<char>, n: nat) -> Result<(Notification, Mark), Error>;

/// The text that a parser was opened on.
pub uninterp spec fn parser_text(parser: Parser<Chars<'_>>) -> Seq<char>;

/// How often a parser has been pulled.
pub uninterp spec fn parser_pulls(parser: Parser<Chars<'_>>) -> nat;

/// What a `Marker` is as a `Mark`.
pub uninterp spec fn marker_view(marker: Marker) -> Mark;

/// What a `ScanError` is as an `Error`.
pub uninterp spec fn scan_error_view(error: ScanError) -> Error;

/// The parser's style of a scalar, under the name that this crate gives it.
pub open spec fn style_view(style: TScalarStyle) -> ScalarStyle {
    match style {
        TScalarStyle::Any => ScalarStyle::Any,
        TScalarStyle::Plain => ScalarStyle::Plain,
        TScalarStyle::SingleQuoted => ScalarStyle::SingleQuoted,
        TScalarStyle::DoubleQuoted => ScalarStyle::DoubleQuoted,
        TScalarStyle::Literal => ScalarStyle::Literal,
        TScalarStyle::Foled => ScalarStyle::Folded,
    }
}

/// The scanner's token as this crate's: a tag keeps its handle and its
/// suffix, a token of any other kind is `Other`.
pub open spec fn token_view(token: TokenType) -> Token {
    match token {
        TokenType::Tag(handle, suffix) => Token::Tag(handle, suffix),
        _ => Token::Other,
    }
}

/// The token that the parser attached to a scalar, if it attached one.
pub open spec fn tag_view(tag: Option<TokenType>) -> Option<Token> {
    match tag {
        Some(token) => Some(token_view(token)),
        None => None,
    }
}

/// The parser's event as a notification: the variant of the same name, with
/// the same fields.
pub open spec fn event_view(event: YamlEvent) -> Notification {
    match event {
        YamlEvent::Nothing => Notification::Nothing,
        YamlEvent::StreamStart => Notification::StreamStart,
        YamlEvent::StreamEnd => Notification::StreamEnd,
        YamlEvent::DocumentStart => Notification::DocumentStart,
        YamlEvent::DocumentEnd => Notification::DocumentEnd,
        YamlEvent::Alias(id) => Notification::Alias(id),
        YamlEvent::Scalar(text, style, id, tag) => Notification::Scalar(
            text,
            style_view(style),
            id,
            tag_view(tag),
        ),
        YamlEvent::SequenceStart(id) => Notification::SequenceStart(id),
        YamlEvent::SequenceEnd => Notification::SequenceEnd,
        YamlEvent::MappingStart(id) => Notification::MappingStart(id),
        YamlEvent::MappingEnd => Notification::MappingEnd,
    }
}

/// `Parser::new` on the characters of `s`: a parser on that text that has not
/// been pulled.
#[verifier::external_body]
fn open_parser<'a>(s: &'a str) -> (parser: Parser<Chars<'a>>)
    ensures
        parser_text(parser) == s@,
        parser_pulls(parser) == 0,
{
    Parser::new(s.chars())
}

/// `Parser::next`: the next event that the parser reports, or its failure.
/// What comes depends on the text and on the number of pulls before, and on
/// nothing else.
#[verifier::external_body]
fn pull<'a>(parser: &mut Parser<Chars<'a>>) -> (r: Result<(YamlEvent, Marker), ScanError>)
    ensures
        reported(parser_text(*old(parser)), parser_pulls(*old(parser))) == (match r {
            Ok((event, marker)) => Ok((event_view(event), marker_view(marker))),
            Err(error) => Err(scan_error_view(error)),
        }),
        parser_text(*final(parser)) == parser_text(*old(parser)),
        parser_pulls(*final(parser)) == parser_pulls(*old(parser)) + 1,
{
    parser.next()
}

/// `Marker::index`, `Marker::line` and `Marker::col`, as one `Mark`.
#[verifier::external_body]
fn mark_of(marker: &Marker) -> (mark: Mark)
    ensures
        mark == marker_view(*marker),
{
    Mark { index: marker.index(), line: marker.line(), col: marker.col() }
}

/// The parser's failure as this crate's: of the kind `Scan`, with the
/// message that `ScanError` prints, at the place that `ScanError::marker`
/// gives.
#[verifier::external_body]
fn scan_failure(error: &ScanError) -> (e: Error)
    ensures
        e == scan_error_view(*error),
        e.kind is Scan,
        e.mark is Some,
{
    let at = error.marker();
    let mark = Mark { index: at.index(), line: at.line(), col: at.col() };
    Error { kind: ErrorKind::Scan(error.to_string()), mark: Some(mark) }
}

/// The parser's style of a scalar, under the name that this crate gives it.
pub fn style_of(style: TScalarStyle) -> (r: ScalarStyle)
    ensures
        r == style_view(style),
{
    match style {
        TScalarStyle::Any => ScalarStyle::Any,
        TScalarStyle::Plain => ScalarStyle::Plain,
        TScalarStyle::SingleQuoted => ScalarStyle::SingleQuoted,
        TScalarStyle::DoubleQuoted => ScalarStyle::DoubleQuoted,
        TScalarStyle::Literal => ScalarStyle::Literal,
        TScalarStyle::Foled => ScalarStyle::Folded,
    }
}

/// The scanner's token as this crate's.
pub fn token_of(token: TokenType) -> (r: Token)
    ensures
        r == token_view(token),
{
    match token {
        TokenType::Tag(handle, suffix) => Token::Tag(handle, suffix),
        _ => Token::Other,
    }
}

/// The parser's event as a notification.
pub fn notification_of(event: YamlEvent) -> (r: Notification)
    ensures
        r == event_view(event),
{
    match event {
        YamlEvent::Nothing => Notification::Nothing,
        YamlEvent::StreamStart => Notification::StreamStart,
        YamlEvent::StreamEnd => Notification::StreamEnd,
        YamlEvent::DocumentStart => Notification::DocumentStart,
        YamlEvent::DocumentEnd => Notification::DocumentEnd,
        YamlEvent::Alias(id) => Notification::Alias(id),
        YamlEvent::Scalar(text, style, id, tag) => {
            let tag = match tag {
                Some(token) => Some(token_of(token)),
                None => None,
            };
            Notification::Scalar(text, style_of(style), id, tag)
        },
        YamlEvent::SequenceStart(id) => Notification::SequenceStart(id),
        YamlEvent::SequenceEnd => Notification::SequenceEnd,
        YamlEvent::MappingStart(id) => Notification::MappingStart(id),
        YamlEvent::MappingEnd => Notification::MappingEnd,
    }
}

/// `std::str::from_utf8`: the text that the bytes encode, if they are UTF-8.
#[verifier::external_body]
fn utf8<'a>(bytes: &'a [u8]) -> (r: Option<&'a str>)
    ensures
        r is Some <==> vstd::utf8::valid_utf8(bytes@),
        r matches Some(s) ==> s.spec_bytes() == bytes@,
{
    std::str::from_utf8(bytes).ok()
}

/// What `finish` answers: the collector, unless it kept no event at all.
pub open spec fn one_stream(loader: Loader) -> Result<Loader, Error> {
    if loader@.events.len() == 0 {
        Err(Error::of(ErrorKind::EndOfStream))
    } else {
        Ok(loader)
    }
}

/// What collecting makes of a text, from the `n`-th pull of the parser on,
/// when `stream` is what was collected before. Each notification is
/// recorded. The failure of the parser ends the collecting, and is the
/// answer. The end of the stream ends it too, and the answer is the stream,
/// or `EndOfStream` if the stream holds no event. No more than `usize::MAX`
/// pulls are made.
pub open spec fn collected(text: Seq<char>, n: nat, stream: Stream) -> Result<Stream, Error>
    decreases usize::MAX - n,
{
    if n >= usize::MAX {
        Err(Error::of(ErrorKind::EndOfStream))
    } else {
        match reported(text, n) {
            Err(e) => Err(e),
            Ok((notification, mark)) => {
                let next = stream.record(notification, mark);
                if notification is StreamEnd {
                    if next.events.len() == 0 {
                        Err(Error::of(ErrorKind::EndOfStream))
                    } else {
                        Ok(next)
                    }
                } else {
                    collected(text, n + 1, next)
                }
            },
        }
    }
}

/// Whether `r` is what `expected` says, a collector being taken by what it
/// has collected.
pub open spec fn answers(r: Result<Loader, Error>, expected: Result<Stream, Error>) -> bool {
    match r {
        Ok(loader) => expected == Ok::<Stream, Error>(loader@) && loader@.wf(),
        Err(e) => expected == Err::<Stream, Error>(e),
    }
}

/// Ends the collecting: a stream without any event is a failure.
pub fn finish(loader: Loader) -> (r: Result<Loader, Error>)
    ensures
        r == one_stream(loader),
{
    if loader.is_empty() {
        Err(Error::end_of_stream())
    } else {
        Ok(loader)
    }
}

/// Reads the events of a YAML text.
///
/// The text is parsed until the parser reports the end of the stream, and
/// every notification is handed to a `Loader`. The parser's failure is
/// returned as it comes. A stream that holds no node fails with
/// `EndOfStream`.
pub fn from_str(s: &str) -> (r: Result<Loader, Error>)
    ensures
        answers(r, collected(s@, 0, Stream::empty())),
        r matches Ok(loader) ==> loader@.events.len() > 0,
        r matches Err(e) ==> e.kind is Scan || e == Error::of(ErrorKind::EndOfStream),
{
    let mut parser = open_parser(s);
    let mut loader = Loader::new();
    let mut left: usize = usize::MAX;
    while left > 0
        invariant
            parser_text(parser) == s@,
            parser_pulls(parser) == usize::MAX - left,
            collected(s@, 0, Stream::empty()) == collected(s@, parser_pulls(parser), loader@),
        decreases left,
    {
        match pull(&mut parser) {
            Err(error) => {
                return Err(scan_failure(&error));
            },
            Ok((event, marker)) => {
                let notification = notification_of(event);
                let ended = match notification {
                    Notification::StreamEnd => true,
                    _ => false,
                };
                loader.on_event(notification, mark_of(&marker));
                if ended {
                    return finish(loader);
                }
            },
        }
        left = left - 1;
    }
    Err(Error::end_of_stream())
}

/// Reads the events of a YAML text given as bytes. Bytes that are no UTF-8
/// fail with `InvalidUtf8`; the rest is as in `from_str`.
pub fn from_slice(v: &[u8]) -> (r: Result<Loader, Error>)
    ensures
        answers(
            r,
            if vstd::utf8::valid_utf8(v@) {
                collected(vstd::utf8::decode_utf8(v@), 0, Stream::empty())
            } else {
                Err(Error::of(ErrorKind::InvalidUtf8))
            },
        ),
{
    match utf8(v) {
        Some(s) => {
            proof {
                vstd::utf8::encode_utf8_decode_utf8(s@);
            }
            from_str(s)
        },
        None => Err(Error::new(ErrorKind::InvalidUtf8)),
    }
}

} // verus!
