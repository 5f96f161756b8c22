//! The markup events that the walker consumes, and the reading of them from
//! an XML document through quick_xml.
use vstd::prelude::*;
use quick_xml::events::Event;
use quick_xml::Reader;
use crate::error::ParseError;
use crate::text::str_eq;
use vstd::string::StrSliceExecFns;

verus! {

/// An attribute of a start tag, with its raw (not unescaped) value.
pub struct Attr {
    pub key: String,
    pub value: String,
}

/// One event of the markup stream. `empty` tells a self-closing tag from a
/// start tag; comments, CDATA, declarations and processing instructions are
/// `Other`. An attribute that quick_xml could not read is `None`.
pub enum XmlEvent {
    Open { name: String, local_name: String, attributes: Vec<Option<Attr>>, empty: bool },
    Close { name: String },
    Text { text: String },
    Other,
    Eof,
}

pub type AttrsV = Seq<Option<(Seq<char>, Seq<char>)>>;

pub enum XmlEventV {
    Open { name: Seq<char>, local_name: Seq<char>, attributes: AttrsV, empty: bool },
    Close { name: Seq<char> },
    Text { text: Seq<char> },
    Other,
    Eof,
}

pub open spec fn attrs_view(v: Seq<Option<Attr>>) -> AttrsV {
    v.map_values(
        |a: Option<Attr>|
            match a {
                Some(a) => Some((a.key@, a.value@)),
                None => None,
            },
    )
}

impl View for XmlEvent {
    type V = XmlEventV;

    open spec fn view(&self) -> XmlEventV {
        match self {
            XmlEvent::Open { name, local_name, attributes, empty } => XmlEventV::Open {
                name: name@,
                local_name: local_name@,
                attributes: attrs_view(attributes@),
                empty: *empty,
            },
            XmlEvent::Close { name } => XmlEventV::Close { name: name@ },
            XmlEvent::Text { text } => XmlEventV::Text { text: text@ },
            XmlEvent::Other => XmlEventV::Other,
            XmlEvent::Eof => XmlEventV::Eof,
        }
    }
}

pub open spec fn events_view(v: Seq<XmlEvent>) -> Seq<XmlEventV> {
    v.map_values(|e: XmlEvent| e@)
}

/// The value of the first readable attribute named `key`.
pub open spec fn attribute_value(attrs: AttrsV, key: Seq<char>) -> Option<Seq<char>>
    decreases attrs.len(),
{
    if attrs.len() == 0 {
        None
    } else {
        match attrs[0] {
            Some(a) => if a.0 == key {
                Some(a.1)
            } else {
                attribute_value(attrs.drop_first(), key)
            },
            None => attribute_value(attrs.drop_first(), key),
        }
    }
}

pub fn get_attribute(attrs: &Vec<Option<Attr>>, key: &str) -> (r: Option<String>)
    ensures
        match attribute_value(attrs_view(attrs@), key@) {
            Some(v) => r matches Some(s) && s@ == v,
            None => r is None,
        },
{
    let ghost av = attrs_view(attrs@);
    let mut i: usize = 0;
    assert(av.subrange(0, av.len() as int) =~= av);
    while i < attrs.len()
        invariant
            i <= attrs.len(),
            av == attrs_view(attrs@),
            attribute_value(av, key@) == attribute_value(av.subrange(i as int, av.len() as int), key@),
        decreases attrs.len() - i,
    {
        let ghost rest = av.subrange(i as int, av.len() as int);
        assert(rest.drop_first() =~= av.subrange(i + 1, av.len() as int));
        assert(rest[0] == av[i as int]);
        match &attrs[i] {
            Some(a) => {
                if str_eq(a.key.as_str(), key) {
                    return Some(a.value.clone());
                }
            },
            None => {},
        }
        i = i + 1;
    }
    None
}

/// The event that quick_xml's reader, made by `Reader::from_str` on `xml`,
/// reports at its `k`-th call of `read_event` (counting from zero); `None`
/// where that call fails, or where the event is a text whose references
/// cannot be unescaped.
pub uninterp spec fn xml_event(xml: Seq<char>, k: nat) -> Option<XmlEventV>;

/// The kind of the event a reader last read.
#[derive(Clone, Copy, Debug, PartialEq, Eq, Structural)]
pub enum EventKind {
    Start,
    Empty,
    End,
    Text,
    Other,
    Eof,
}

pub open spec fn kind_of(e: XmlEventV) -> EventKind {
    match e {
        XmlEventV::Open { empty, .. } => if empty {
            EventKind::Empty
        } else {
            EventKind::Start
        },
        XmlEventV::Close { .. } => EventKind::End,
        XmlEventV::Text { .. } => EventKind::Text,
        XmlEventV::Other => EventKind::Other,
        XmlEventV::Eof => EventKind::Eof,
    }
}

pub open spec fn local_name_of(e: XmlEventV) -> Seq<char> {
    match e {
        XmlEventV::Open { local_name, .. } => local_name,
        _ => Seq::empty(),
    }
}

pub open spec fn attributes_of(e: XmlEventV) -> AttrsV {
    match e {
        XmlEventV::Open { attributes, .. } => attributes,
        _ => Seq::empty(),
    }
}

pub open spec fn text_of(e: XmlEventV) -> Seq<char> {
    match e {
        XmlEventV::Text { text } => text,
        _ => Seq::empty(),
    }
}

/// A quick_xml reader over a document, with the event it read last.
#[verifier::external_body]
pub struct QuickReader<'a> {
    inner: Reader<&'a [u8]>,
    current: Option<Event<'static>>,
}

/// A reader over the text `text` that has read `count` events; when
/// `loaded`, the last of them is at hand.
pub struct XmlReader<'a> {
    raw: QuickReader<'a>,
    text: Ghost<Seq<char>>,
    count: Ghost<nat>,
    loaded: Ghost<bool>,
}

impl<'a> XmlReader<'a> {
    pub closed spec fn source(&self) -> Seq<char> {
        self.text@
    }

    pub closed spec fn position(&self) -> nat {
        self.count@
    }

    pub closed spec fn last(&self) -> Option<XmlEventV> {
        if self.loaded@ && self.count@ > 0 {
            xml_event(self.text@, (self.count@ - 1) as nat)
        } else {
            None
        }
    }
}

/// Relies on quick_xml's `Reader::from_str`: a reader at the start of `xml`.
#[verifier::external_body]
fn open_quick<'a>(xml: &'a str) -> QuickReader<'a> {
    QuickReader { inner: Reader::from_str(xml), current: None }
}

/// Relies on quick_xml's `Reader::read_event` and `BytesText::unescaped`: reads
/// the next event and keeps it; false where the read fails or a text's
/// references cannot be unescaped.
#[verifier::external_body]
fn advance(reader: &mut XmlReader) -> (r: bool)
    ensures
        final(reader).text == old(reader).text,
        final(reader).count == old(reader).count,
        final(reader).loaded == old(reader).loaded,
        r == xml_event(old(reader).text@, old(reader).count@) is Some,
{
    let mut buf = Vec::new();
    match reader.raw.inner.read_event(&mut buf) {
        Ok(Event::Text(t)) if t.unescaped().is_err() => false,
        Ok(e) => {
            reader.raw.current = Some(e.into_owned());
            true
        },
        Err(_) => false,
    }
}

/// Relies on quick_xml's `Event` variants of the event last read.
#[verifier::external_body]
fn current_kind(reader: &XmlReader) -> (r: EventKind)
    requires
        reader.last() is Some,
    ensures
        r == kind_of(reader.last()->Some_0),
{
    match &reader.raw.current {
        Some(Event::Start(_)) => EventKind::Start,
        Some(Event::Empty(_)) => EventKind::Empty,
        Some(Event::End(_)) => EventKind::End,
        Some(Event::Text(_)) => EventKind::Text,
        Some(Event::Eof) => EventKind::Eof,
        _ => EventKind::Other,
    }
}

/// Relies on quick_xml's `BytesStart::name` and `BytesEnd::name`: the tag name
/// of the tag last read. The document is a `str`, so the name is UTF-8 and
/// its conversion loses nothing.
#[verifier::external_body]
fn current_name(reader: &XmlReader) -> (r: String)
    requires
        reader.last() matches Some(e) && (e is Open || e is Close),
    ensures
        r@ == match reader.last()->Some_0 {
            XmlEventV::Open { name, .. } => name,
            XmlEventV::Close { name } => name,
            _ => Seq::empty(),
        },
{
    match &reader.raw.current {
        Some(Event::Start(e)) | Some(Event::Empty(e)) => String::from_utf8_lossy(e.name()).into_owned(),
        Some(Event::End(e)) => String::from_utf8_lossy(e.name()).into_owned(),
        _ => String::new(),
    }
}

/// Relies on quick_xml's `BytesStart::local_name`: the tag name without its
/// namespace prefix.
#[verifier::external_body]
fn current_local_name(reader: &XmlReader) -> (r: String)
    requires
        reader.last() matches Some(e) && e is Open,
    ensures
        r@ == local_name_of(reader.last()->Some_0),
{
    match &reader.raw.current {
        Some(Event::Start(e)) | Some(Event::Empty(e)) => String::from_utf8_lossy(e.local_name()).into_owned(),
        _ => String::new(),
    }
}

/// Relies on quick_xml's `BytesStart::attributes`: the tag's attributes with
/// raw values, an unreadable one as `None`.
#[verifier::external_body]
fn current_attributes(reader: &XmlReader) -> (r: Vec<Option<Attr>>)
    requires
        reader.last() matches Some(e) && e is Open,
    ensures
        attrs_view(r@) == attributes_of(reader.last()->Some_0),
{
    let s = |b: &[u8]| String::from_utf8_lossy(b).into_owned();
    match &reader.raw.current {
        Some(Event::Start(e)) | Some(Event::Empty(e)) => e.attributes().map(|a| a.ok().map(|a| Attr { key: s(a.key), value: s(&a.value) })).collect(),
        _ => Vec::new(),
    }
}

/// Relies on quick_xml's `BytesText::unescaped`: the text with its character
/// and entity references replaced.
#[verifier::external_body]
fn current_text(reader: &XmlReader) -> (r: String)
    requires
        reader.last() matches Some(e) && e is Text,
    ensures
        r@ == text_of(reader.last()->Some_0),
{
    match &reader.raw.current {
        Some(Event::Text(t)) => t.unescaped().map(|b| String::from_utf8_lossy(&b).into_owned()).unwrap_or_default(),
        _ => String::new(),
    }
}

impl<'a> XmlReader<'a> {
    pub fn new(xml: &'a str) -> (r: Self)
        ensures
            r.source() == xml@,
            r.position() == 0,
    {
        XmlReader { raw: open_quick(xml), text: Ghost(xml@), count: Ghost(0), loaded: Ghost(false) }
    }

    /// The next event of the document.
    pub fn next_event(&mut self) -> (r: Result<XmlEvent, ParseError>)
        ensures
            final(self).source() == old(self).source(),
            final(self).position() == old(self).position() + 1,
            match xml_event(old(self).source(), old(self).position()) {
                Some(e) => r matches Ok(v) && v@ == e,
                None => r == Err::<XmlEvent, ParseError>(ParseError::Malformed),
            },
    {
        self.loaded = Ghost(false);
        let ok = advance(self);
        self.count = Ghost(self.count@ + 1);
        if !ok {
            return Err(ParseError::Malformed);
        }
        self.loaded = Ghost(true);
        match current_kind(self) {
            EventKind::Start | EventKind::Empty => {
                let kind = current_kind(self);
                let name = current_name(self);
                let local_name = current_local_name(self);
                let attributes = current_attributes(self);
                Ok(XmlEvent::Open { name, local_name, attributes, empty: kind == EventKind::Empty })
            },
            EventKind::End => Ok(XmlEvent::Close { name: current_name(self) }),
            EventKind::Text => Ok(XmlEvent::Text { text: current_text(self) }),
            EventKind::Other => Ok(XmlEvent::Other),
            EventKind::Eof => Ok(XmlEvent::Eof),
        }
    }
}

/// The events read from `xml` from the `k`-th on, up to and including the end
/// of input, where every read succeeds and the end comes within `budget` more
/// events.
pub open spec fn scan(xml: Seq<char>, k: nat, budget: nat) -> Option<Seq<XmlEventV>>
    decreases budget,
{
    match xml_event(xml, k) {
        None => None,
        Some(e) => if e is Eof {
            Some(seq![e])
        } else if budget == 0 {
            None
        } else {
            match scan(xml, k + 1, (budget - 1) as nat) {
                None => None,
                Some(rest) => Some(seq![e] + rest),
            }
        },
    }
}

/// All events of a document. Each event but the end of input consumes at
/// least one character, so a document has at most one event per character
/// before its end.
pub open spec fn xml_document(xml: Seq<char>) -> Option<Seq<XmlEventV>> {
    scan(xml, 0, xml.len())
}

/// All events of `xml`, up to and including the end of input.
pub fn read_events(xml: &str) -> (r: Result<Vec<XmlEvent>, ParseError>)
    ensures
        match xml_document(xml@) {
            Some(evs) => r matches Ok(v) && events_view(v@) == evs,
            None => r == Err::<Vec<XmlEvent>, ParseError>(ParseError::Malformed),
        },
{
    let mut reader = XmlReader::new(xml);
    let mut events: Vec<XmlEvent> = Vec::new();
    let mut budget: usize = xml.unicode_len();
    loop
        invariant
            reader.source() == xml@,
            reader.position() == events@.len(),
            xml_document(xml@) == match scan(xml@, reader.position(), budget as nat) {
                None => None,
                Some(rest) => Some(events_view(events@) + rest),
            },
        decreases budget,
    {
        let ghost k = reader.position();
        let ghost before = events@;
        let ev = match reader.next_event() {
            Ok(ev) => ev,
            Err(e) => return Err(e),
        };
        if let XmlEvent::Eof = ev {
            events.push(ev);
            assert(events_view(events@) =~= events_view(before) + seq![ev@]);
            return Ok(events);
        }
        if budget == 0 {
            return Err(ParseError::Malformed);
        }
        budget = budget - 1;
        events.push(ev);
        assert(events_view(events@) =~= events_view(before) + seq![ev@]);
        assert forall|rest: Seq<XmlEventV>| #![auto] events_view(before) + (seq![ev@] + rest)
            == events_view(events@) + rest by {
            assert(events_view(before) + (seq![ev@] + rest) =~= events_view(events@) + rest);
        }
    }
}

} // verus!
