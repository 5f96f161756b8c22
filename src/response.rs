//! The whole pipeline on one result document: events to records, records to
//! SQL text.
use vstd::prelude::*;
use crate::error::ParseError;
use crate::event::{events_view, read_events, xml_document, XmlEvent, XmlEventV};
use crate::record::{
    all_labelled, datastreams_sql, datastreams_view, objects_sql, objects_view, Datastream,
    DatastreamV, Object, ObjectV,
};
use crate::walker::{initial, run_from, walk, Walker};

verus! {

/// The SQL text that an event stream yields: the objects block, then the
/// datastreams block; an unknown content model fails the whole text.
pub open spec fn sql_of(evs: Seq<XmlEventV>) -> Result<Seq<char>, ParseError> {
    match walk(evs) {
        Err(e) => Err(e),
        Ok((o, d)) => if all_labelled(o) {
            Ok(objects_sql(o) + datastreams_sql(d))
        } else {
            Err(ParseError::UnknownContentModel)
        },
    }
}

/// The objects and datastreams of an event stream, in document order.
pub fn parse_events(events: &Vec<XmlEvent>) -> (r: Result<(Vec<Object>, Vec<Datastream>), ParseError>)
    ensures
        match walk(events_view(events@)) {
            Ok((o, d)) => r matches Ok((ro, rd)) && objects_view(ro@) == o && datastreams_view(rd@)
                == d,
            Err(e) => r == Err::<(Vec<Object>, Vec<Datastream>), ParseError>(e),
        },
{
    let ghost evs = events_view(events@);
    let mut w = Walker::new();
    let mut i: usize = 0;
    while i < events.len()
        invariant
            i <= events.len(),
            evs == events_view(events@),
            run_from(initial(), evs, 0) == run_from(w@, evs, i as int),
        decreases events.len() - i,
    {
        match w.feed(&events[i]) {
            Err(e) => return Err(e),
            Ok(()) => {},
        }
        i = i + 1;
    }
    let eof = XmlEvent::Eof;
    match w.feed(&eof) {
        Err(e) => return Err(e),
        Ok(()) => {},
    }
    Ok((w.objects, w.datastreams))
}

/// Both SQL blocks for the given records.
pub fn render_sql(objects: &Vec<Object>, datastreams: &Vec<Datastream>) -> (r: Result<
    String,
    ParseError,
>)
    ensures
        all_labelled(objects_view(objects@)) ==> (r matches Ok(s) && s@ == objects_sql(
            objects_view(objects@),
        ) + datastreams_sql(datastreams_view(datastreams@))),
        !all_labelled(objects_view(objects@)) ==> r == Err::<String, ParseError>(
            ParseError::UnknownContentModel,
        ),
{
    let mut s = Object::sql(objects)?;
    let d = Datastream::sql(datastreams);
    s.append(d.as_str());
    Ok(s)
}

/// The SQL text of an event stream.
pub fn events_sql(events: &Vec<XmlEvent>) -> (r: Result<String, ParseError>)
    ensures
        match sql_of(events_view(events@)) {
            Ok(s) => r matches Ok(t) && t@ == s,
            Err(e) => r == Err::<String, ParseError>(e),
        },
{
    let (objects, datastreams) = parse_events(events)?;
    render_sql(&objects, &datastreams)
}

/// The objects and datastreams of an XML result document.
pub fn parse_response(xml: &str) -> (r: Result<(Vec<Object>, Vec<Datastream>), ParseError>)
    ensures
        match xml_document(xml@) {
            Some(evs) => match walk(evs) {
                Ok((o, d)) => r matches Ok((ro, rd)) && objects_view(ro@) == o && datastreams_view(
                    rd@,
                ) == d,
                Err(e) => r == Err::<(Vec<Object>, Vec<Datastream>), ParseError>(e),
            },
            None => r == Err::<(Vec<Object>, Vec<Datastream>), ParseError>(ParseError::Malformed),
        },
{
    let events = read_events(xml)?;
    parse_events(&events)
}

/// The SQL text of an XML result document: a run either yields all of it or fails.
pub fn generate_sql(xml: &str) -> (r: Result<String, ParseError>)
    ensures
        match xml_document(xml@) {
            Some(evs) => match sql_of(evs) {
                Ok(s) => r matches Ok(t) && t@ == s,
                Err(e) => r == Err::<String, ParseError>(e),
            },
            None => r == Err::<String, ParseError>(ParseError::Malformed),
        },
{
    let events = read_events(xml)?;
    events_sql(&events)
}

} // verus!
