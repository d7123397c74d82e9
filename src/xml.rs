//! Reading listing and access-control documents through the quick-xml
//! token reader, one token at a time.
//!
//! The reader is modelled by the document it reads and the calls made on it
//! so far: what a call answers is named (`event_answer`, `text_answer`) as a
//! function of those alone, and `pos` stands for the number of bytes of the
//! document that the reader has consumed.
use vstd::prelude::*;
use vstd::utf8::encode_utf8;

use crate::error::OssError;
use crate::listing::{
    initial_state, is_text_field, listing_of, name_is, step, tag_is, text_field, DecoderView,
    EventView, ListingDecoder, ListingEvent,
};
use crate::object::{ListObjects, ListObjectsView};
use quick_xml::events::Event;
use quick_xml::name::QName;
use quick_xml::Reader;

verus! {

#[verifier::external_type_specification]
#[verifier::external_body]
#[verifier::reject_recursive_types(R)]
pub struct ExXmlReader<R>(Reader<R>);

/// A call made on the reader.
pub enum ReaderCall {
    /// `trim_text(true)`.
    TrimText,
    /// `read_event()`.
    NextEvent,
    /// `read_text(name)`.
    ReadText(Seq<u8>),
}

/// A token of the XML document, as far as the decoders look at it.
pub enum XmlEvent {
    Start(Vec<u8>),
    End(Vec<u8>),
    Eof,
    Other,
}

/// The mathematical value of an [`XmlEvent`].
pub enum TokenView {
    Start(Seq<u8>),
    End(Seq<u8>),
    Eof,
    Other,
}

/// The value of an optional token.
pub open spec fn token_of(e: Option<XmlEvent>) -> Option<TokenView> {
    match e {
        Some(XmlEvent::Start(n)) => Some(TokenView::Start(n@)),
        Some(XmlEvent::End(n)) => Some(TokenView::End(n@)),
        Some(XmlEvent::Eof) => Some(TokenView::Eof),
        Some(XmlEvent::Other) => Some(TokenView::Other),
        None => None,
    }
}

/// The value of an optional text.
pub open spec fn text_of(t: Option<String>) -> Option<Seq<char>> {
    match t {
        Some(s) => Some(s@),
        None => None,
    }
}

/// What the last of `calls`, a `read_event`, answers on a reader of `doc`
/// on which `calls` were made in order; `None` for an error.
pub uninterp spec fn event_answer(doc: Seq<char>, calls: Seq<ReaderCall>) -> Option<TokenView>;

/// What the last of `calls`, a `read_text`, answers on a reader of `doc`
/// on which `calls` were made in order; `None` for an error.
pub uninterp spec fn text_answer(doc: Seq<char>, calls: Seq<ReaderCall>) -> Option<Seq<char>>;

/// A quick-xml reader over a document, with its model.
pub struct XmlReader<'a> {
    reader: Reader<&'a [u8]>,
    doc: Ghost<Seq<char>>,
    calls: Ghost<Seq<ReaderCall>>,
    pos: Ghost<int>,
}

/// Relies on quick_xml's `Reader::from_str`: a reader at the start of `xml`.
#[verifier::external_body]
fn raw_reader(xml: &str) -> Reader<&[u8]> {
    Reader::from_str(xml)
}

/// Relies on quick_xml's `Reader::trim_text`: it sets an option and reads nothing.
#[verifier::external_body]
fn trim_text(r: &mut XmlReader)
    ensures
        final(r).doc == old(r).doc,
        final(r).calls@ == old(r).calls@.push(ReaderCall::TrimText),
        final(r).pos == old(r).pos,
{
    r.reader.trim_text(true);
}

/// Relies on quick_xml's `Reader::read_event` on a byte slice: its answer
/// depends on the document and the calls before it alone; it never moves
/// back nor past the end; and every token but `Eof` takes up at least one
/// byte (a text is read only where no `<` comes first; a tag takes its `<`).
#[verifier::external_body]
fn next_event(r: &mut XmlReader) -> (e: Option<XmlEvent>)
    ensures
        final(r).doc == old(r).doc,
        final(r).calls@ == old(r).calls@.push(ReaderCall::NextEvent),
        token_of(e) == event_answer(final(r).doc@, final(r).calls@),
        old(r).pos@ <= final(r).pos@ <= encode_utf8(final(r).doc@).len(),
        e is Some && !(e->Some_0 is Eof) ==> old(r).pos@ < final(r).pos@,
{
    match r.reader.read_event() {
        Ok(Event::Start(e)) => Some(XmlEvent::Start(e.name().as_ref().to_vec())),
        Ok(Event::End(e)) => Some(XmlEvent::End(e.name().as_ref().to_vec())),
        Ok(Event::Eof) => Some(XmlEvent::Eof),
        Ok(_) => Some(XmlEvent::Other),
        Err(_) => None,
    }
}

/// Relies on quick_xml's `Reader::read_text` on a byte slice: the raw text
/// up to the end tag `name`, which it consumes; its answer depends on the
/// document and the calls before it alone.
#[verifier::external_body]
fn element_text(r: &mut XmlReader, name: &Vec<u8>) -> (t: Option<String>)
    ensures
        final(r).doc == old(r).doc,
        final(r).calls@ == old(r).calls@.push(ReaderCall::ReadText(name@)),
        text_of(t) == text_answer(final(r).doc@, final(r).calls@),
        old(r).pos@ <= final(r).pos@ <= encode_utf8(final(r).doc@).len(),
        t is Some ==> old(r).pos@ < final(r).pos@,
{
    r.reader.read_text(QName(name.as_slice())).ok().map(|t| t.into_owned())
}

/// A reader over `xml` that trims whitespace around text.
fn open_reader<'a>(xml: &'a str) -> (r: XmlReader<'a>)
    ensures
        r.doc@ == xml@,
        r.calls@ == seq![ReaderCall::TrimText],
        r.pos@ == 0,
{
    let mut r = XmlReader {
        reader: raw_reader(xml),
        doc: Ghost(xml@),
        calls: Ghost(Seq::empty()),
        pos: Ghost(0),
    };
    trim_text(&mut r);
    proof {
        assert(r.calls@ =~= seq![ReaderCall::TrimText]);
    }
    r
}

/// The listing decoded from the tokens that follow `calls`, from decoder
/// state `d`, within `fuel` tokens. A text field's text is read up to its
/// end tag; tokens other than tags are skipped.
pub open spec fn listing_from(
    doc: Seq<char>,
    calls: Seq<ReaderCall>,
    d: DecoderView,
    fuel: nat,
) -> Option<ListObjectsView>
    decreases fuel,
{
    if fuel == 0 {
        None
    } else {
        let c1 = calls.push(ReaderCall::NextEvent);
        match event_answer(doc, c1) {
            None => None,
            Some(TokenView::Eof) => Some(listing_of(d)),
            Some(TokenView::Other) => listing_from(doc, c1, d, (fuel - 1) as nat),
            Some(TokenView::End(n)) => match step(d, EventView::Close(n)) {
                Some(d2) => listing_from(doc, c1, d2, (fuel - 1) as nat),
                None => None,
            },
            Some(TokenView::Start(n)) => if is_text_field(n) {
                let c2 = c1.push(ReaderCall::ReadText(n));
                match text_answer(doc, c2) {
                    None => None,
                    Some(t) => match step(d, EventView::Field(n, t)) {
                        Some(d2) => listing_from(doc, c2, d2, (fuel - 1) as nat),
                        None => None,
                    },
                }
            } else {
                match step(d, EventView::Open(n)) {
                    Some(d2) => listing_from(doc, c1, d2, (fuel - 1) as nat),
                    None => None,
                }
            },
        }
    }
}

/// The listing that a document decodes to; `None` where the reader fails or
/// the listing is malformed. Every token but the last takes up a byte, so
/// one token more than the document has bytes always suffices.
pub open spec fn listing_of_document(doc: Seq<char>) -> Option<ListObjectsView> {
    listing_from(doc, seq![ReaderCall::TrimText], initial_state(), (encode_utf8(doc).len() + 1) as nat)
}

/// The text of the first `Grant` element among the tokens that follow
/// `calls`, within `fuel` tokens; empty where the document ends first.
pub open spec fn grant_from(doc: Seq<char>, calls: Seq<ReaderCall>, fuel: nat) -> Option<Seq<char>>
    decreases fuel,
{
    if fuel == 0 {
        None
    } else {
        let c1 = calls.push(ReaderCall::NextEvent);
        match event_answer(doc, c1) {
            None => None,
            Some(TokenView::Eof) => Some(Seq::empty()),
            Some(TokenView::Start(n)) => if tag_is(n, "Grant") {
                text_answer(doc, c1.push(ReaderCall::ReadText(n)))
            } else {
                grant_from(doc, c1, (fuel - 1) as nat)
            },
            Some(_) => grant_from(doc, c1, (fuel - 1) as nat),
        }
    }
}

/// The `Grant` text of an access-control document; `None` where the reader fails.
pub open spec fn grant_of_document(doc: Seq<char>) -> Option<Seq<char>> {
    grant_from(doc, seq![ReaderCall::TrimText], (encode_utf8(doc).len() + 1) as nat)
}

/// Decodes a bucket listing document in a single forward pass.
pub fn parse_list_objects(xml: &str) -> (r: Result<ListObjects, OssError>)
    ensures
        match listing_of_document(xml@) {
            Some(l) => r is Ok && r->Ok_0@ == l,
            None => r == Err::<ListObjects, OssError>(OssError::MalformedListing),
        },
{
    let mut reader = open_reader(xml);
    let mut dec = ListingDecoder::new();
    let ghost len = encode_utf8(xml@).len();
    let ghost mut fuel: nat = (len + 1) as nat;
    loop
        invariant
            reader.doc@ == xml@,
            len == encode_utf8(xml@).len(),
            0 <= reader.pos@ <= len,
            fuel >= len - reader.pos@ + 1,
            listing_from(xml@, reader.calls@, dec@, fuel) == listing_of_document(xml@),
        decreases len - reader.pos@,
    {
        let ghost calls0 = reader.calls@;
        let ghost d0 = dec@;
        let ghost pos0 = reader.pos@;
        let e = next_event(&mut reader);
        let ghost c1 = reader.calls@;
        assert(c1 == calls0.push(ReaderCall::NextEvent));
        match e {
            None => return Err(OssError::MalformedListing),
            Some(XmlEvent::Eof) => return Ok(dec.finish()),
            Some(XmlEvent::Other) => {},
            Some(XmlEvent::End(n)) => {
                let ev = ListingEvent::Close(n);
                dec.feed(&ev)?;
            },
            Some(XmlEvent::Start(n)) => {
                if text_field(&n) {
                    match element_text(&mut reader, &n) {
                        Some(t) => {
                            let ev = ListingEvent::Field(n, t);
                            dec.feed(&ev)?;
                        },
                        None => return Err(OssError::MalformedListing),
                    }
                } else {
                    let ev = ListingEvent::Open(n);
                    dec.feed(&ev)?;
                }
            },
        }
        proof {
            assert(listing_from(xml@, calls0, d0, fuel) == listing_from(
                xml@,
                reader.calls@,
                dec@,
                (fuel - 1) as nat,
            ));
            fuel = (fuel - 1) as nat;
        }
    }
}

/// Extracts the text of the first `Grant` element of an access-control
/// document, or an empty text where there is none.
pub fn parse_grant(xml: &str) -> (r: Result<String, OssError>)
    ensures
        match grant_of_document(xml@) {
            Some(g) => r is Ok && r->Ok_0@ == g,
            None => r == Err::<String, OssError>(OssError::MalformedListing),
        },
{
    let mut reader = open_reader(xml);
    let ghost len = encode_utf8(xml@).len();
    let ghost mut fuel: nat = (len + 1) as nat;
    loop
        invariant
            reader.doc@ == xml@,
            len == encode_utf8(xml@).len(),
            0 <= reader.pos@ <= len,
            fuel >= len - reader.pos@ + 1,
            grant_from(xml@, reader.calls@, fuel) == grant_of_document(xml@),
        decreases len - reader.pos@,
    {
        let ghost calls0 = reader.calls@;
        let e = next_event(&mut reader);
        match e {
            None => return Err(OssError::MalformedListing),
            Some(XmlEvent::Eof) => return Ok(String::new()),
            Some(XmlEvent::Start(n)) => {
                if name_is(&n, "Grant") {
                    return match element_text(&mut reader, &n) {
                        Some(t) => Ok(t),
                        None => Err(OssError::MalformedListing),
                    };
                }
            },
            Some(_) => {},
        }
        proof {
            assert(grant_from(xml@, calls0, fuel) == grant_from(
                xml@,
                reader.calls@,
                (fuel - 1) as nat,
            ));
            fuel = (fuel - 1) as nat;
        }
    }
}

} // verus!
