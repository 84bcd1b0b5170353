//! The boundary to the off-the-shelf tag tokenizer.
//!
//! The tokenizer turns raw document bytes into a flat event stream.  That
//! stream is a function of the bytes alone, so it is given a name here
//! (`events_of`), stated on the trusted wrappers and carried through the
//! verified entry points: what a whole-buffer parse returns is then pinned
//! by [`crate::parser::parse_step_post`] over the named stream.

use vstd::prelude::*;
use xml::reader::XmlEvent;
use crate::data_types::XDFElement;
use crate::dialect::Dialect;
use crate::error::Error;
use crate::events::{Attr, Event};
use crate::parser::{elem_err_tr, elem_tr, parse_step_post, ErrTrace, ParseTrace};

verus! {

/// Holds the outside tokenizer, opaque to the verifier.  The tokenizer's
/// own type carries a `Read` bound that the verifier does not take in a
/// type declaration, so the value lives behind this private field instead,
/// reached only through the two wrappers below.
#[verifier::external_body]
struct Tokenizer {
    inner: xml::reader::EventReader<std::io::Cursor<Vec<u8>>>,
}

/// The bytes a tokenizer was built over.
pub uninterp spec fn tok_bytes(t: Tokenizer) -> Seq<u8>;

/// How many events a tokenizer has already yielded.
pub uninterp spec fn tok_pos(t: Tokenizer) -> int;

/// The event stream of a byte sequence: the events the configured reader
/// yields before its terminal outcome, and whether that terminal is the
/// end-of-document marker (`true`) or a tokenizer failure (`false`).  The
/// stream is a function of the bytes alone.
pub uninterp spec fn events_of(data: Seq<u8>) -> (Seq<Event>, bool);

/// Relies on `xml::ParserConfig` and `xml::reader::EventReader::new_with_config`:
/// builds a tokenizer over a copy of the bytes with comments ignored,
/// whitespace trimmed and turned into character runs, CDATA merged, and
/// consecutive character runs coalesced — the event shape the dispatcher
/// expects.  The model records the bytes, with no event yielded yet.
#[verifier::external_body]
fn new_reader(data: &[u8]) -> (t: Tokenizer)
    ensures
        tok_bytes(t) == data@,
        tok_pos(t) == 0,
{
    Tokenizer {
        inner: xml::reader::EventReader::new_with_config(
            std::io::Cursor::new(data.to_vec()),
            xml::ParserConfig::new()
                .ignore_comments(true)
                .trim_whitespace(true)
                .whitespace_to_characters(true)
                .cdata_to_characters(true)
                .coalesce_characters(true),
        ),
    }
}

#[verifier::external_type_specification]
#[verifier::external_body]
pub struct ExOwnedAttribute(xml::attribute::OwnedAttribute);

/// Relies on the tokenizer's attribute type: carries one attribute's local
/// name and value across the boundary, one for one.
#[verifier::external_body]
fn to_attr(a: xml::attribute::OwnedAttribute) -> Attr {
    Attr { name: a.name.local_name, value: a.value }
}

/// Relies on `xml::reader::EventReader::next`: pulls one tokenizer event,
/// carried into the parser's event model one variant at a time; a failure
/// is carried as its message.  Per the reader's documentation the
/// end-of-document marker and a failure are terminal and repeat on every
/// further pull, and the marker only ever appears as that terminal; so
/// before the terminal the pull yields exactly the named stream's next
/// event, and at it the marker or a failure, as the stream's flag says.
#[verifier::external_body]
fn next_event(reader: &mut Tokenizer) -> (r: Result<Event, String>)
    ensures
        (r matches Ok(_) ==> tok_bytes(*final(reader)) == tok_bytes(*old(reader))),
        (r matches Err(_) ==> tok_bytes(*final(reader)) == tok_bytes(*old(reader))),
        (0 <= tok_pos(*old(reader)) < events_of(tok_bytes(*old(reader))).0.len() ==> r
            == Ok::<Event, String>(events_of(tok_bytes(*old(reader))).0[tok_pos(*old(reader))])
            && !(events_of(tok_bytes(*old(reader))).0[tok_pos(*old(reader))] is DocEnd)
            && tok_pos(*final(reader)) == tok_pos(*old(reader)) + 1),
        (tok_pos(*old(reader)) == events_of(tok_bytes(*old(reader))).0.len() && events_of(
            tok_bytes(*old(reader)),
        ).1 ==> r == Ok::<Event, String>(Event::DocEnd)),
        (tok_pos(*old(reader)) == events_of(tok_bytes(*old(reader))).0.len() && !events_of(
            tok_bytes(*old(reader)),
        ).1 ==> r matches Err(_)),
{
    match reader.inner.next() {
        Err(e) => Err(format!("{}", e)),
        Ok(XmlEvent::StartDocument { .. }) => Ok(Event::DocStart),
        Ok(XmlEvent::EndDocument) => Ok(Event::DocEnd),
        Ok(XmlEvent::StartElement { name, attributes, .. }) => Ok(Event::TagOpen {
            name: name.local_name,
            attrs: attributes.into_iter().map(to_attr).collect(),
        }),
        Ok(XmlEvent::EndElement { name }) => Ok(Event::TagClose { name: name.local_name }),
        Ok(XmlEvent::Characters(c) | XmlEvent::CData(c) | XmlEvent::Whitespace(c)) => Ok(
            Event::Text { content: c },
        ),
        Ok(_) => Ok(Event::Other),
    }
}

/// Turn raw document bytes into the flat event stream: exactly the named
/// stream of the bytes followed by the end-of-document marker, or a
/// tokenizer error when the stream ends in one.
#[verifier::loop_isolation(false)]
pub fn tokenize(data: &[u8]) -> (r: Result<Vec<Event>, Error>)
    ensures
        ({
            let (es, ok) = events_of(data@);
            &&& (ok ==> (r matches Ok(v) && v@ == es.push(Event::DocEnd)))
            &&& (!ok ==> (r matches Err(e) && (e matches Error::XmlError(_))))
        }),
{
    let mut reader = new_reader(data);
    let mut events: Vec<Event> = Vec::new();
    loop
        invariant
            tok_bytes(reader) == data@,
            0 <= tok_pos(reader) <= events_of(data@).0.len(),
            events@ =~= events_of(data@).0.subrange(0, tok_pos(reader)),
        decreases events_of(data@).0.len() - tok_pos(reader),
    {
        match next_event(&mut reader) {
            Err(msg) => {
                return Err(Error::XmlError(msg));
            },
            Ok(ev) => {
                let is_end = matches!(ev, Event::DocEnd);
                events.push(ev);
                if is_end {
                    proof {
                        assert(events@ =~= events_of(data@).0.push(Event::DocEnd));
                    }
                    return Ok(events);
                }
                proof {
                    assert(events@ =~= events_of(data@).0.subrange(0, tok_pos(reader)));
                }
            },
        }
    }
}

/// Parse one whole buffered document under the current dialect; see
/// [`parse_buffer_with`] for what the contract pins and for the eager
/// tokenization of the buffer.
pub fn parse_buffer(data: &[u8]) -> (r: Result<XDFElement, Error>)
    ensures
        ({
            let (es, ok) = events_of(data@);
            let full = es.push(Event::DocEnd);
            &&& (ok ==> (exists|p2: int|
                0 <= p2 <= full.len() && #[trigger] parse_step_post(
                    full,
                    0,
                    p2,
                    r,
                    Dialect::Current,
                )))
            &&& (ok ==> (r matches Ok(e) ==> (exists|p2: int, tr: ParseTrace| #[trigger] elem_tr(
                full,
                0,
                Dialect::Current,
                e,
                p2,
                tr,
            ))))
            &&& (ok ==> (r matches Err(err) ==> (exists|p2: int, et: ErrTrace| #[trigger] elem_err_tr(
                full,
                0,
                Dialect::Current,
                err,
                p2,
                et,
            ))))
            &&& (!ok ==> (r matches Err(e) && (e matches Error::XmlError(_))))
        }),
{
    parse_buffer_with(data, Dialect::Current)
}

/// Parse one whole buffered document under the given dialect; exactly one
/// tag table is active per parse invocation.  On a well-formed byte stream
/// the result is pinned by the dispatcher's stated relation over the named
/// event stream at its start.
///
/// The whole buffer is tokenized before parsing begins, so bytes whose
/// tail breaks the tokenizer fail with `XmlError` even where the first
/// element closes earlier; a pull-as-you-parse reader would return that
/// element instead.
pub fn parse_buffer_with(data: &[u8], d: Dialect) -> (r: Result<XDFElement, Error>)
    ensures
        ({
            let (es, ok) = events_of(data@);
            let full = es.push(Event::DocEnd);
            &&& (ok ==> (exists|p2: int|
                0 <= p2 <= full.len() && #[trigger] parse_step_post(full, 0, p2, r, d)))
            &&& (ok ==> (r matches Ok(e) ==> (exists|p2: int, tr: ParseTrace| #[trigger] elem_tr(
                full,
                0,
                d,
                e,
                p2,
                tr,
            ))))
            &&& (ok ==> (r matches Err(err) ==> (exists|p2: int, et: ErrTrace| #[trigger] elem_err_tr(
                full,
                0,
                d,
                err,
                p2,
                et,
            ))))
            &&& (!ok ==> (r matches Err(e) && (e matches Error::XmlError(_))))
        }),
{
    match tokenize(data) {
        Err(e) => Err(e),
        Ok(events) => {
            let mut pos: usize = 0;
            let r = XDFElement::from_xml(&events, &mut pos, d);
            proof {
                if events_of(data@).1 {
                    assert(parse_step_post(
                        events_of(data@).0.push(Event::DocEnd),
                        0,
                        pos as int,
                        r,
                        d,
                    ));
                    let gr = r;
                    match gr {
                        Ok(e) => {
                            let tr = choose|tr: ParseTrace| #[trigger] elem_tr(
                                events@,
                                0,
                                d,
                                e,
                                pos as int,
                                tr,
                            );
                            assert(elem_tr(
                                events_of(data@).0.push(Event::DocEnd),
                                0,
                                d,
                                e,
                                pos as int,
                                tr,
                            ));
                        },
                        Err(err2) => {
                            let et = choose|et: ErrTrace| #[trigger] elem_err_tr(
                                events@,
                                0,
                                d,
                                err2,
                                pos as int,
                                et,
                            );
                            assert(elem_err_tr(
                                events_of(data@).0.push(Event::DocEnd),
                                0,
                                d,
                                err2,
                                pos as int,
                                et,
                            ));
                        },
                    }
                }
            }
            r
        },
    }
}

} // verus!
