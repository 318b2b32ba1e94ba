//! Events of an XML document, read with `quick_xml`.
use vstd::prelude::*;
use quick_xml::events::Event;
use quick_xml::Reader;
use XmlAttr::{Attr, Malformed};
use XmlEvent::{End, Eof, Other, Start, Text};

verus! {

/// A `quick_xml::Reader` over a string, held opaque: nothing of it is seen
/// but the events it has yet to yield ([`pending_xml_events`]).
#[verifier::external_body]
pub struct XmlReader<'a>(Reader<&'a [u8]>);

/// One attribute of a start tag, as far as it could be read.
pub enum XmlAttr {
    /// The attribute could not be parsed; quick_xml stops the attribute list here.
    Malformed,
    /// `key` is `None` when the key is not UTF-8; `value` is `None` when the
    /// value could not be unescaped and decoded.
    Attr { key: Option<String>, value: Option<String> },
}

/// The view of an [`XmlAttr`].
pub enum SpecXmlAttr {
    Malformed,
    Attr { key: Option<Seq<char>>, value: Option<Seq<char>> },
}

impl View for XmlAttr {
    type V = SpecXmlAttr;

    open spec fn view(&self) -> SpecXmlAttr {
        match self {
            XmlAttr::Malformed => SpecXmlAttr::Malformed,
            XmlAttr::Attr { key, value } => SpecXmlAttr::Attr {
                key: key.deep_view(),
                value: value.deep_view(),
            },
        }
    }
}

/// One event of an XML document.
pub enum XmlEvent {
    /// An opening tag; `name` is `None` when the name is not UTF-8.
    Start { name: Option<String>, attrs: Vec<XmlAttr> },
    /// A closing tag; `name` is `None` when the name is not UTF-8.
    End { name: Option<String> },
    /// Character data; `text` is `None` when it could not be unescaped and decoded.
    Text { text: Option<String> },
    /// Any other event: declarations, comments, CDATA, empty elements, errors.
    Other,
    /// The end of the document.
    Eof,
}

/// The view of an [`XmlEvent`].
pub enum SpecXmlEvent {
    Start { name: Option<Seq<char>>, attrs: Seq<SpecXmlAttr> },
    End { name: Option<Seq<char>> },
    Text { text: Option<Seq<char>> },
    Other,
    Eof,
}

pub open spec fn attrs_view(attrs: Seq<XmlAttr>) -> Seq<SpecXmlAttr> {
    attrs.map_values(|a: XmlAttr| a@)
}

impl View for XmlEvent {
    type V = SpecXmlEvent;

    open spec fn view(&self) -> SpecXmlEvent {
        match self {
            XmlEvent::Start { name, attrs } => SpecXmlEvent::Start {
                name: name.deep_view(),
                attrs: attrs_view(attrs@),
            },
            XmlEvent::End { name } => SpecXmlEvent::End { name: name.deep_view() },
            XmlEvent::Text { text } => SpecXmlEvent::Text { text: text.deep_view() },
            XmlEvent::Other => SpecXmlEvent::Other,
            XmlEvent::Eof => SpecXmlEvent::Eof,
        }
    }
}

/// The events, short of the final end of document, that `quick_xml` reads
/// from `contents` with text trimming switched on.
pub uninterp spec fn xml_events(contents: Seq<char>) -> Seq<SpecXmlEvent>;

/// The events, short of the final end of document, that `reader` has yet to yield.
pub uninterp spec fn pending_xml_events(reader: XmlReader) -> Seq<SpecXmlEvent>;

/// `quick_xml::Reader::from_str` on `contents`, then `trim_text(true)`.
/// Claimed: the reader is about to yield the events of `contents`.
#[verifier::external_body]
fn open_xml_reader(contents: &str) -> (reader: XmlReader)
    ensures
        pending_xml_events(reader) == xml_events(contents@),
{
    let mut reader = Reader::from_str(contents);
    reader.trim_text(true);
    XmlReader(reader)
}

/// `quick_xml::Reader::read_event` into a fresh buffer, its event turned
/// into an [`XmlEvent`]. Claimed: the next pending event comes out and leaves
/// the pending ones; once none is pending, the reader yields `Eof` and stays
/// as it is (after an error or the end, quick_xml yields `Eof` forever).
#[verifier::external_body]
fn next_xml_event(reader: &mut XmlReader) -> (event: XmlEvent)
    ensures
        pending_xml_events(*old(reader)).len() == 0 ==> event is Eof
            && pending_xml_events(*final(reader)) == pending_xml_events(*old(reader)),
        pending_xml_events(*old(reader)).len() > 0 ==> event@ == pending_xml_events(*old(reader))[0]
            && pending_xml_events(*final(reader)) == pending_xml_events(*old(reader)).drop_first(),
{
    match reader.0.read_event(&mut Vec::new()) {
        Ok(Event::Start(e)) => Start {
            name: String::from_utf8(e.name().to_vec()).ok(),
            attrs: e.attributes().map(|a| match a {
                Ok(a) => Attr { key: String::from_utf8(a.key.to_vec()).ok(), value: a.unescape_and_decode_value(&reader.0).ok() },
                _ => Malformed
            }).collect()
        },
        Ok(Event::End(e)) => End { name: String::from_utf8(e.name().to_vec()).ok() },
        Ok(Event::Text(e)) => Text { text: e.unescape_and_decode(&reader.0).ok() },
        Ok(Event::Eof) => Eof,
        _ => Other
    }
}

/// The events before the first end of document, or all of them.
pub open spec fn events_before_eof(events: Seq<SpecXmlEvent>) -> Seq<SpecXmlEvent>
    decreases events.len(),
{
    if events.len() == 0 || events[0] is Eof {
        Seq::empty()
    } else {
        seq![events[0]] + events_before_eof(events.drop_first())
    }
}

/// Reads the events of `contents` up to the end of the document.
pub fn read_xml_events(contents: &str) -> (events: Vec<XmlEvent>)
    ensures
        events@.map_values(|e: XmlEvent| e@) == events_before_eof(xml_events(contents@)),
{
    let mut reader = open_xml_reader(contents);
    let mut events: Vec<XmlEvent> = Vec::new();
    loop
        invariant
            events@.map_values(|e: XmlEvent| e@) + events_before_eof(pending_xml_events(reader))
                == events_before_eof(xml_events(contents@)),
        decreases pending_xml_events(reader).len(),
    {
        let ghost before = pending_xml_events(reader);
        let event = next_xml_event(&mut reader);
        if let XmlEvent::Eof = event {
            assert(events_before_eof(before) =~= Seq::<SpecXmlEvent>::empty());
            return events;
        }
        proof {
            assert(events_before_eof(before) == seq![event@] + events_before_eof(before.drop_first()));
        }
        let ghost old_events = events@;
        events.push(event);
        assert(events@.map_values(|e: XmlEvent| e@) =~= old_events.map_values(|e: XmlEvent| e@) + seq![event@]);
    }
}

} // verus!

verus! {

/// Whether one of the events is text reading `text`.
pub open spec fn has_text(events: Seq<SpecXmlEvent>, text: Seq<char>) -> bool {
    exists|i: int| 0 <= i < events.len() && #[trigger] events[i] == (SpecXmlEvent::Text { text: Some(text) })
}

/// Texts stay among the events when events are added after them.
pub proof fn lemma_has_text_extend(events: Seq<SpecXmlEvent>, more: Seq<SpecXmlEvent>, text: Seq<char>)
    requires
        has_text(events, text),
    ensures
        has_text(events + more, text),
{
    let i = choose|i: int| 0 <= i < events.len() && #[trigger] events[i] == (SpecXmlEvent::Text { text: Some(text) });
    assert((events + more)[i] == events[i]);
}

} // verus!

verus! {

/// Whether no event of `events` is an end of document.
pub open spec fn no_eof(events: Seq<SpecXmlEvent>) -> bool {
    forall|i: int| 0 <= i < events.len() ==> !(#[trigger] events[i] is Eof)
}

/// Two readings one after the other: both must go through.
pub open spec fn joined<T>(first: Option<Seq<T>>, second: Option<Seq<T>>) -> Option<Seq<T>> {
    match (first, second) {
        (Some(a), Some(b)) => Some(a + b),
        _ => None,
    }
}

/// The document `<name>` + `inner` + `</name>`, as events.
pub open spec fn wrapped(name: Seq<char>, attrs: Seq<SpecXmlAttr>, inner: Seq<SpecXmlEvent>) -> Seq<SpecXmlEvent> {
    seq![SpecXmlEvent::Start { name: Some(name), attrs }] + inner + seq![SpecXmlEvent::End { name: Some(name) }]
}

} // verus!
