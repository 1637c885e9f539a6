//! XML documents as the stream of events that an XML reader reports.

use vstd::prelude::*;
use quick_xml::events::Event;
use crate::model::opt_view;

verus! {

/// One event of an XML document, with tag names and text as the raw
/// bytes of the document.
#[derive(Clone, Debug, PartialEq)]
pub enum XmlEvent {
    /// An opening tag `<name ...>`: its name.
    Start(Vec<u8>),
    /// A self-closing tag `<name .../>`: its name.
    Empty(Vec<u8>),
    /// A closing tag `</name>`: its name.
    End(Vec<u8>),
    /// Character data between tags, still escaped.
    Text(Vec<u8>),
    /// Anything else: comments, declarations, CDATA, processing instructions.
    Other,
}

/// The mathematical value of an XML event.
pub enum XmlEventV {
    Start(Seq<u8>),
    Empty(Seq<u8>),
    End(Seq<u8>),
    Text(Seq<u8>),
    Other,
}

impl View for XmlEvent {
    type V = XmlEventV;

    open spec fn view(&self) -> XmlEventV {
        match self {
            XmlEvent::Start(n) => XmlEventV::Start(n@),
            XmlEvent::Empty(n) => XmlEventV::Empty(n@),
            XmlEvent::End(n) => XmlEventV::End(n@),
            XmlEvent::Text(t) => XmlEventV::Text(t@),
            XmlEvent::Other => XmlEventV::Other,
        }
    }
}

/// The mathematical value of a list of events.
pub open spec fn events_view(v: Seq<XmlEvent>) -> Seq<XmlEventV> {
    v.map_values(|e: XmlEvent| e@)
}

/// The text that the bytes `b` encode in UTF-8, if they are valid UTF-8.
pub uninterp spec fn utf8_text(b: Seq<u8>) -> Option<Seq<char>>;

/// The text of escaped XML character data `raw`, its entity and character
/// references resolved, if it is valid UTF-8 and every reference is known.
pub uninterp spec fn xml_unescaped(raw: Seq<u8>) -> Option<Seq<char>>;

/// `std::str::from_utf8`. Claimed: the result is `utf8_text` of `b`.
#[verifier::external_body]
pub(crate) fn decode_utf8(b: &[u8]) -> (r: Option<String>)
    ensures
        opt_view(r) == utf8_text(b@),
{
    std::str::from_utf8(b).ok().map(String::from)
}

/// `quick_xml::escape::unescape` of the UTF-8 text of `raw`, as
/// `BytesText::unescape` does it. Claimed: the result is `xml_unescaped`
/// of `raw`.
#[verifier::external_body]
pub(crate) fn unescape_xml(raw: &[u8]) -> (r: Option<String>)
    ensures
        opt_view(r) == xml_unescaped(raw@),
{
    quick_xml::escape::unescape(std::str::from_utf8(raw).ok()?).ok().map(String::from)
}

/// Whether a tag name, as raw bytes, is `name`.
pub open spec fn named(n: Seq<u8>, name: Seq<char>) -> bool {
    utf8_text(n) == Some(name)
}

/// Whether the tag name `n` is `name`.
pub(crate) fn name_is(n: &Vec<u8>, name: &str) -> (b: bool)
    ensures
        b == named(n@, name@),
{
    match decode_utf8(n.as_slice()) {
        Some(x) => crate::text::same_text(x.as_str(), name),
        None => false,
    }
}

/// The events that an XML reader reports for `data`, before the end of
/// the document or the first error, and the message of that error.
pub uninterp spec fn xml_events(data: Seq<u8>) -> (Seq<XmlEventV>, Option<Seq<char>>);

/// The attributes of the event at position `index` of the events of
/// `data`: each key and unescaped value (`None` when not valid), or the
/// message of an attribute that could not be read; empty unless that
/// event is a tag.
pub uninterp spec fn xml_attributes(data: Seq<u8>, index: nat) -> Seq<
    Result<(Option<Seq<char>>, Option<Seq<char>>), Seq<char>>,
>;

/// The mathematical value of a list of attributes.
pub open spec fn attrs_view(v: Seq<Result<(Option<String>, Option<String>), String>>) -> Seq<
    Result<(Option<Seq<char>>, Option<Seq<char>>), Seq<char>>,
> {
    v.map_values(
        |a: Result<(Option<String>, Option<String>), String>|
            match a {
                Ok(p) => Ok((opt_view(p.0), opt_view(p.1))),
                Err(m) => Err(m@),
            },
    )
}

/// `quick_xml::Reader::from_reader(data)` read with `read_event` until the
/// end or an error. Claimed: the events and the error message are
/// `xml_events` of `data`.
#[verifier::external_body]
pub(crate) fn scan_xml(data: &[u8]) -> (r: (Vec<XmlEvent>, Option<String>))
    ensures
        (events_view(r.0@), opt_view(r.1)) == xml_events(data@),
{
    let mut reader = quick_xml::Reader::from_reader(data);
    let mut events = Vec::new();
    loop {
        let event = match reader.read_event() {
            Ok(Event::Start(e)) => XmlEvent::Start(e.name().as_ref().to_vec()),
            Ok(Event::Empty(e)) => XmlEvent::Empty(e.name().as_ref().to_vec()),
            Ok(Event::End(e)) => XmlEvent::End(e.name().as_ref().to_vec()),
            Ok(Event::Text(e)) => XmlEvent::Text(e.into_inner().into_owned()),
            Ok(Event::Eof) => return (events, None),
            Err(e) => return (events, Some(e.to_string())),
            Ok(_) => XmlEvent::Other,
        };
        events.push(event);
    }
}

/// `quick_xml`: the attributes (`BytesStart::attributes`) of the event at
/// position `index` of `data`, each key with its `unescape_value`.
/// Claimed: the result is `xml_attributes` of the arguments.
#[verifier::external_body]
pub(crate) fn attributes_at(data: &[u8], index: usize) -> (r: Vec<Result<(Option<String>, Option<String>), String>>)
    ensures
        attrs_view(r@) == xml_attributes(data@, index as nat),
{
    let mut reader = quick_xml::Reader::from_reader(data);
    for _ in 0..index {
        let _ = reader.read_event();
    }
    match reader.read_event() {
        Ok(Event::Start(e)) | Ok(Event::Empty(e)) => e.attributes().map(|a| a.map(|a| (
            String::from_utf8(a.key.as_ref().to_vec()).ok(),
            a.unescape_value().ok().map(|v| v.into_owned()),
        )).map_err(|x| x.to_string())).collect(),
        _ => Vec::new(),
    }
}

} // verus!
