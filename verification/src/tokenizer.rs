use vstd::prelude::*;
use quick_xml::events::Event as XmlEvent;
use crate::events::{Event, EventView, terminal_event};
use crate::machine::skip_close;

verus! {

/// The quick_xml crate's streaming reader, carried opaquely.
#[verifier::external_type_specification]
#[verifier::external_body]
#[verifier::reject_recursive_types(R)]
pub struct ExReader<R>(quick_xml::reader::Reader<R>);

/// The tokenization of a byte stream: the events the tokenizer yields over
/// `bytes` from the start, in order, with text and tag names decoded. The
/// sequence is never empty and its last event is the only terminal one:
/// `Eof` after a cleanly exhausted input, or `Broken` at the first point
/// where the reader reports ill-formed input. An event whose tag name or
/// text content cannot be decoded stands as `Undecodable`. The reader's
/// configuration is fixed, so the sequence depends on the bytes alone.
pub uninterp spec fn tokens_of(bytes: Seq<u8>) -> Seq<EventView>;

/// A forward-only tokenizer over an in-memory dump: the quick_xml streaming
/// reader together with the reusable buffer its events are decoded into,
/// the bytes the reader was built over, and how many events of their
/// tokenization have been consumed (the latter two in ghost form, paired
/// with the reader by construction: `tokenizer_new` is the only
/// constructor, and only the trusted operations below advance the reader).
pub(crate) struct Tokenizer<'a> {
    reader: quick_xml::reader::Reader<&'a [u8]>,
    buf: Vec<u8>,
    input: Ghost<Seq<u8>>,
    taken: Ghost<int>,
}

impl<'a> Tokenizer<'a> {
    /// The bytes the reader was built over.
    pub(crate) closed spec fn input(self) -> Seq<u8> {
        self.input@
    }

    /// How many events of `tokens_of(self.input())` have been consumed.
    pub(crate) closed spec fn taken(self) -> int {
        self.taken@
    }
}

/// Relies on quick_xml::reader::Reader::from_reader: creates a streaming
/// reader over the given bytes; nothing is read until the first event is
/// asked for.
#[verifier::external_body]
fn reader_new<'a>(input: &'a [u8]) -> (r: quick_xml::reader::Reader<&'a [u8]>) {
    quick_xml::reader::Reader::from_reader(input)
}

/// A fresh tokenizer over `input`: no event consumed yet.
pub(crate) fn tokenizer_new<'a>(input: &'a [u8]) -> (t: Tokenizer<'a>)
    ensures
        t.input() == input@,
        t.taken() == 0,
{
    Tokenizer { reader: reader_new(input), buf: Vec::new(), input: Ghost(input@), taken: Ghost(0) }
}

/// Relies on std's String::from_utf8: a tag name is taken as UTF-8, kept
/// byte for byte; ill-encoded names are refused.
#[verifier::external_body]
fn utf8_name(b: &[u8]) -> (r: Option<String>) {
    String::from_utf8(b.to_vec()).ok()
}

/// Relies on quick_xml::reader::Reader::read_event_into for the next
/// structural event of the stream, and on quick_xml::events::BytesText::
/// unescape to decode a text event's escaped content; tag names and text
/// are taken as UTF-8. The reader yields the events of `tokens_of` over its
/// input in order: the call hands out the event at the next position, or
/// `None` where that event is `Undecodable` (content the tokenizer refuses
/// to decode) or `Broken` (the reader reports ill-formed input). Neither
/// call nor decoding panics; errors are returned.
#[verifier::external_body]
pub(crate) fn tokenizer_next(t: &mut Tokenizer) -> (r: Option<Event>)
    ensures
        final(t).input() == old(t).input(),
        tokens_of(old(t).input()).len() > 0,
        terminal_event(tokens_of(old(t).input()).last()),
        ({
            let toks = tokens_of(old(t).input());
            old(t).taken() < toks.len() ==> match r {
                Some(ev) => ev@ == toks[old(t).taken()] && final(t).taken() == old(t).taken() + 1,
                None => toks[old(t).taken()] is Undecodable || toks[old(t).taken()] is Broken,
            }
        }),
{
    t.buf.clear();
    match t.reader.read_event_into(&mut t.buf) {
        Ok(XmlEvent::Start(e)) => utf8_name(e.name().as_ref()).map(Event::Start),
        Ok(XmlEvent::End(e)) => utf8_name(e.name().as_ref()).map(Event::End),
        Ok(XmlEvent::Text(e)) => e.unescape().ok().map(|s| Event::Text(s.into_owned())),
        Ok(XmlEvent::Eof) => Some(Event::Eof),
        Ok(_) => Some(Event::Other),
        Err(_) => None,
    }
}

/// Relies on quick_xml::reader::Reader::read_to_end_into: discards every
/// event up to and including the matching close of the enclosing page
/// element, counting nested page elements, without decoding the discarded
/// content — exactly the leap `skip_close` takes over the tokenization.
/// Returns false, without moving past the offending event, when the reader
/// reports ill-formed input or the stream ends before the matching close;
/// errors are returned, nothing panics.
#[verifier::external_body]
pub(crate) fn tokenizer_skip_page(t: &mut Tokenizer) -> (r: bool)
    ensures
        final(t).input() == old(t).input(),
        ({
            let toks = tokens_of(old(t).input());
            match skip_close(toks, old(t).taken(), 0) {
                Some(j) => r && final(t).taken() == j,
                None => !r,
            }
        }),
{
    t.buf.clear();
    t.reader.read_to_end_into(quick_xml::name::QName(b"page"), &mut t.buf).is_ok()
}

} // verus!
