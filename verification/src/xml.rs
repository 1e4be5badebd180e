//! Reading XML documents as a sequence of events. The reading itself is the
//! work of `quick_xml`; what the documents mean is decided on the events.

use quick_xml::events::Event::{CData, Empty, End, Eof, Start, Text};
use quick_xml::reader::Reader;
use vstd::prelude::*;

verus! {

/// The reader of `quick_xml`. For Verus it is an opaque value that is
/// handed from one call to the next.
#[verifier::external_type_specification]
#[verifier::external_body]
#[verifier::reject_recursive_types(R)]
pub struct ExReader<R>(quick_xml::reader::Reader<R>);

/// One piece of a document.
#[derive(Debug, Clone, PartialEq)]
pub enum XmlEvent {
    /// A start tag, with the name as written.
    Start(String),
    /// An end tag, with the name as written.
    End(String),
    /// A tag of an element without content, with the name as written.
    Empty(String),
    /// Character data, with its entity references resolved.
    Text(String),
    /// The character data of a CDATA section, as it stands.
    CData(String),
    /// Character data with an entity reference that cannot be resolved.
    BadText,
    /// A comment, a declaration, a processing instruction or a document
    /// type.
    Other,
    /// The end of the document.
    Eof,
    /// The place where the document stops being well-formed.
    Malformed,
}

/// The mathematical value of an [`XmlEvent`].
pub ghost enum XmlEventView {
    Start(Seq<char>),
    End(Seq<char>),
    Empty(Seq<char>),
    Text(Seq<char>),
    CData(Seq<char>),
    BadText,
    Other,
    Eof,
    Malformed,
}

impl View for XmlEvent {
    type V = XmlEventView;

    open spec fn view(&self) -> XmlEventView {
        match self {
            XmlEvent::Start(name) => XmlEventView::Start(name@),
            XmlEvent::End(name) => XmlEventView::End(name@),
            XmlEvent::Empty(name) => XmlEventView::Empty(name@),
            XmlEvent::Text(text) => XmlEventView::Text(text@),
            XmlEvent::CData(text) => XmlEventView::CData(text@),
            XmlEvent::BadText => XmlEventView::BadText,
            XmlEvent::Other => XmlEventView::Other,
            XmlEvent::Eof => XmlEventView::Eof,
            XmlEvent::Malformed => XmlEventView::Malformed,
        }
    }
}

impl DeepView for XmlEvent {
    type V = XmlEventView;

    open spec fn deep_view(&self) -> XmlEventView {
        self@
    }
}

/// Whether reading stops with `event`.
pub open spec fn ends_reading(event: XmlEventView) -> bool {
    event is Eof || event is Malformed
}

/// The events that a reader yields for `text`, up to and with the first
/// that ends the reading. With `trim` the reader drops the white space
/// around character data, and character data that is white space only.
pub uninterp spec fn document_events(text: Seq<char>, trim: bool) -> Seq<XmlEventView>;

/// The events that `reader` has yet to yield, up to and with the first that
/// ends the reading.
pub uninterp spec fn pending_events(reader: Reader<&[u8]>) -> Seq<XmlEventView>;

/// The events of a well-formed document before its end; a document that is
/// not well-formed has none.
pub open spec fn events_of(text: Seq<char>, trim: bool) -> Option<Seq<XmlEventView>> {
    let all = document_events(text, trim);
    if all.len() > 0 && all.last() is Eof {
        Some(all.drop_last())
    } else {
        None
    }
}

/// `quick_xml::Reader::from_str` makes a reader over `text`, and
/// `Config::trim_text` says whether it drops the white space around
/// character data. What the reader will yield depends on the text and on
/// that setting alone.
#[verifier::external_body]
fn open_document<'a>(text: &'a str, trim: bool) -> (reader: Reader<&'a [u8]>)
    ensures
        pending_events(reader) == document_events(text@, trim),
{
    let mut reader = Reader::from_str(text);
    reader.config_mut().trim_text(trim);
    reader
}

/// `quick_xml::Reader::read_event` yields the next event and moves the
/// reader past it. The names of tags are handed on as written, character
/// data as `BytesText::unescape` resolves it, the content of a CDATA section
/// as it stands, and an error of the reader as `Malformed`. A reader over a
/// text yields finitely many events before the one that ends the reading.
#[verifier::external_body]
fn next_event<'a>(reader: &mut Reader<&'a [u8]>) -> (event: XmlEvent)
    ensures
        ends_reading(event@) ==> pending_events(*old(reader)) == seq![event@],
        !ends_reading(event@) ==> pending_events(*old(reader)) == seq![event@] + pending_events(
            *final(reader),
        ),
{
    match reader.read_event() {
        Ok(Start(e)) => XmlEvent::Start(String::from_utf8_lossy(e.name().0).into_owned()),
        Ok(End(e)) => XmlEvent::End(String::from_utf8_lossy(e.name().0).into_owned()),
        Ok(Empty(e)) => XmlEvent::Empty(String::from_utf8_lossy(e.name().0).into_owned()),
        Ok(Text(e)) => match e.unescape() {
            Ok(text) => XmlEvent::Text(text.into_owned()),
            Err(_) => XmlEvent::BadText,
        },
        Ok(CData(e)) => XmlEvent::CData(String::from_utf8_lossy(&e).into_owned()),
        Ok(Eof) => XmlEvent::Eof,
        Ok(_) => XmlEvent::Other,
        Err(_) => XmlEvent::Malformed,
    }
}

/// Reads `document` to its end, with or without the white space around
/// character data. The result holds the events before the end, and is
/// `None` where the document is not well-formed.
pub fn read_events(document: &str, trim: bool) -> (events: Option<Vec<XmlEvent>>)
    ensures
        events.deep_view() == events_of(document@, trim),
{
    let mut reader = open_document(document, trim);
    let mut events: Vec<XmlEvent> = Vec::new();
    loop
        invariant
            document_events(document@, trim) == events.deep_view() + pending_events(reader),
        decreases pending_events(reader).len(),
    {
        let event = next_event(&mut reader);
        match event {
            XmlEvent::Eof => {
                return Some(events);
            },
            XmlEvent::Malformed => {
                return None;
            },
            _ => {
                events.push(event);
            },
        }
    }
}

} // verus!
