//! The response walker: a state machine over the markup events of one result
//! document that finds each `doc` element, routes its fields into a builder and
//! collects the objects and datastreams that the closed documents yield.
use vstd::prelude::*;
use crate::assembler::{
    absorb, empty_builder, finish, route, route_field, BuilderV, DocBuilder, FieldKind,
};
use crate::error::ParseError;
use crate::event::{attribute_value, get_attribute, XmlEvent, XmlEventV};
use crate::record::{datastreams_view, objects_view, Datastream, DatastreamV, Object, ObjectV};
use crate::text::{blank, is_blank, str_eq};

verus! {

/// Where the walker stands in the document.
#[derive(Clone, Copy, Debug, PartialEq, Eq, Structural)]
pub enum Phase {
    /// Between `doc` elements.
    Outside,
    /// Inside a `doc`, with no field value pending.
    Fields,
    /// Waiting for a multi-valued field's first `str` fragment.
    AwaitFragment,
    /// Waiting for the first non-blank text of the current field.
    AwaitText,
    /// The end of input was reached between `doc` elements.
    Done,
}

/// The walker's state. Inside a `doc`, `depth` counts the elements open
/// within it: field elements start at depth zero, and what opens deeper is a
/// fragment of a field's value.
pub struct WalkerV {
    pub phase: Phase,
    pub kind: FieldKind,
    pub dsid: Seq<char>,
    pub depth: nat,
    pub builder: BuilderV,
    pub objects: Seq<ObjectV>,
    pub datastreams: Seq<DatastreamV>,
}

pub open spec fn initial() -> WalkerV {
    WalkerV {
        phase: Phase::Outside,
        kind: FieldKind::Ignored,
        dsid: Seq::empty(),
        depth: 0,
        builder: empty_builder(),
        objects: Seq::empty(),
        datastreams: Seq::empty(),
    }
}

/// A field named `n` opens inside a `doc`.
pub open spec fn open_field(w: WalkerV, n: Seq<char>) -> Result<WalkerV, ParseError> {
    match route(n) {
        Err(e) => Err(e),
        Ok((k, d)) => Ok(
            WalkerV {
                phase: if k == FieldKind::Ignored {
                    Phase::Fields
                } else if k == FieldKind::Datastream {
                    Phase::AwaitFragment
                } else {
                    Phase::AwaitText
                },
                kind: k,
                dsid: d,
                ..w
            },
        ),
    }
}

/// The current `doc` closes; the walker goes on between documents.
pub open spec fn close_doc(w: WalkerV) -> Result<WalkerV, ParseError> {
    match finish(w.builder) {
        Err(e) => Err(e),
        Ok((o, ds)) => Ok(
            WalkerV {
                phase: Phase::Outside,
                builder: empty_builder(),
                depth: 0,
                objects: w.objects.push(o),
                datastreams: w.datastreams + ds,
                ..w
            },
        ),
    }
}

pub open spec fn in_doc(p: Phase) -> bool {
    p == Phase::Fields || p == Phase::AwaitFragment || p == Phase::AwaitText
}

/// An element opens inside a `doc`.
pub open spec fn open_in_doc(
    w: WalkerV,
    local_name: Seq<char>,
    attributes: crate::event::AttrsV,
    empty: bool,
) -> Result<WalkerV, ParseError> {
    if !empty && w.depth >= usize::MAX {
        Err(ParseError::Malformed)
    } else {
        let w1 = if empty {
            w
        } else {
            WalkerV { depth: w.depth + 1, ..w }
        };
        if w.phase == Phase::Fields {
            if w.depth == 0 {
                match attribute_value(attributes, "name"@) {
                    Some(n) => open_field(w1, n),
                    None => Err(ParseError::MissingName),
                }
            } else {
                Ok(w1)
            }
        } else if w.phase == Phase::AwaitFragment && local_name == "str"@ {
            Ok(WalkerV { phase: Phase::AwaitText, ..w1 })
        } else {
            Ok(w1)
        }
    }
}

/// One event moves the walker on, or ends the run with an error.
pub open spec fn step(w: WalkerV, e: XmlEventV) -> Result<WalkerV, ParseError> {
    match w.phase {
        Phase::Done => Ok(w),
        Phase::Outside => match e {
            XmlEventV::Open { name, empty, .. } => if name == "doc"@ {
                if empty {
                    close_doc(WalkerV { builder: empty_builder(), ..w })
                } else {
                    Ok(WalkerV { phase: Phase::Fields, builder: empty_builder(), depth: 0, ..w })
                }
            } else {
                Ok(w)
            },
            XmlEventV::Eof => Ok(WalkerV { phase: Phase::Done, ..w }),
            _ => Ok(w),
        },
        _ => match e {
            XmlEventV::Open { local_name, attributes, empty, .. } => open_in_doc(
                w,
                local_name,
                attributes,
                empty,
            ),
            XmlEventV::Close { name } => if w.depth > 0 {
                Ok(WalkerV { depth: (w.depth - 1) as nat, ..w })
            } else if w.phase == Phase::Fields && name == "doc"@ {
                close_doc(w)
            } else {
                Err(ParseError::Malformed)
            },
            XmlEventV::Text { text } => if w.phase == Phase::AwaitText && !is_blank(text) {
                match absorb(w.builder, w.kind, w.dsid, text) {
                    Err(x) => Err(x),
                    Ok(b) => Ok(WalkerV { phase: Phase::Fields, builder: b, ..w }),
                }
            } else {
                Ok(w)
            },
            XmlEventV::Eof => Err(ParseError::Malformed),
            XmlEventV::Other => Ok(w),
        },
    }
}

/// The walker after the events of `evs` from index `i` on.
pub open spec fn run_from(w: WalkerV, evs: Seq<XmlEventV>, i: int) -> Result<WalkerV, ParseError>
    decreases evs.len() - i,
{
    if i < 0 || i >= evs.len() {
        Ok(w)
    } else {
        match step(w, evs[i]) {
            Err(e) => Err(e),
            Ok(w2) => run_from(w2, evs, i + 1),
        }
    }
}

/// The objects and datastreams of an event stream, the end of input included
/// whether or not `evs` holds it.
pub open spec fn walk(evs: Seq<XmlEventV>) -> Result<(Seq<ObjectV>, Seq<DatastreamV>), ParseError> {
    match run_from(initial(), evs, 0) {
        Err(e) => Err(e),
        Ok(w) => match step(w, XmlEventV::Eof) {
            Err(e) => Err(e),
            Ok(w2) => Ok((w2.objects, w2.datastreams)),
        },
    }
}

/// The walker's state.
pub struct Walker {
    pub phase: Phase,
    pub kind: FieldKind,
    pub dsid: String,
    pub depth: usize,
    pub builder: DocBuilder,
    pub objects: Vec<Object>,
    pub datastreams: Vec<Datastream>,
}

impl View for Walker {
    type V = WalkerV;

    open spec fn view(&self) -> WalkerV {
        WalkerV {
            phase: self.phase,
            kind: self.kind,
            dsid: self.dsid@,
            depth: self.depth as nat,
            builder: self.builder@,
            objects: objects_view(self.objects@),
            datastreams: datastreams_view(self.datastreams@),
        }
    }
}

impl Walker {
    pub fn new() -> (r: Self)
        ensures
            r@ == initial(),
    {
        let r = Walker {
            phase: Phase::Outside,
            kind: FieldKind::Ignored,
            dsid: String::new(),
            depth: 0,
            builder: DocBuilder::new(),
            objects: Vec::new(),
            datastreams: Vec::new(),
        };
        assert(r@.objects =~= Seq::<ObjectV>::empty());
        assert(r@.datastreams =~= Seq::<DatastreamV>::empty());
        r
    }

    fn close_doc(&mut self) -> (r: Result<(), ParseError>)
        ensures
            match close_doc(old(self)@) {
                Ok(w) => r is Ok && final(self)@ == w,
                Err(e) => r == Err::<(), ParseError>(e),
            },
    {
        let mut b = DocBuilder::new();
        core::mem::swap(&mut self.builder, &mut b);
        let (o, mut ds) = match b.finish() {
            Ok(x) => x,
            Err(e) => return Err(e),
        };
        let ghost objs = self.objects@;
        let ghost dss = self.datastreams@;
        let ghost dsv = ds@;
        self.objects.push(o);
        self.datastreams.append(&mut ds);
        self.phase = Phase::Outside;
        self.depth = 0;
        proof {
            assert(objects_view(self.objects@) =~= objects_view(objs).push(o@));
            assert(datastreams_view(self.datastreams@) =~= datastreams_view(dss)
                + datastreams_view(dsv));
        }
        Ok(())
    }

    fn open_field(&mut self, n: &String) -> (r: Result<(), ParseError>)
        ensures
            match open_field(old(self)@, n@) {
                Ok(w) => r is Ok && final(self)@ == w,
                Err(e) => r == Err::<(), ParseError>(e),
            },
    {
        let (k, d) = match route_field(n.as_str()) {
            Ok(x) => x,
            Err(e) => return Err(e),
        };
        self.phase = if k == FieldKind::Ignored {
            Phase::Fields
        } else if k == FieldKind::Datastream {
            Phase::AwaitFragment
        } else {
            Phase::AwaitText
        };
        self.kind = k;
        self.dsid = d;
        Ok(())
    }

    fn open_in_doc(&mut self, local_name: &String, attributes: &Vec<Option<crate::event::Attr>>, empty: bool) -> (r: Result<(), ParseError>)
        requires
            in_doc(old(self).phase),
        ensures
            match open_in_doc(old(self)@, local_name@, crate::event::attrs_view(attributes@), empty) {
                Ok(w) => r is Ok && final(self)@ == w,
                Err(e) => r == Err::<(), ParseError>(e),
            },
    {
        if !empty && self.depth == usize::MAX {
            return Err(ParseError::Malformed);
        }
        let at_field_level = self.depth == 0;
        if !empty {
            self.depth = self.depth + 1;
        }
        if self.phase == Phase::Fields {
            if at_field_level {
                match get_attribute(attributes, "name") {
                    Some(n) => self.open_field(&n),
                    None => Err(ParseError::MissingName),
                }
            } else {
                Ok(())
            }
        } else {
            if self.phase == Phase::AwaitFragment && str_eq(local_name.as_str(), "str") {
                self.phase = Phase::AwaitText;
            }
            Ok(())
        }
    }

    /// Takes in one event.
    pub fn feed(&mut self, e: &XmlEvent) -> (r: Result<(), ParseError>)
        ensures
            match step(old(self)@, e@) {
                Ok(w) => r is Ok && final(self)@ == w,
                Err(x) => r == Err::<(), ParseError>(x),
            },
    {
        match self.phase {
            Phase::Done => Ok(()),
            Phase::Outside => match e {
                XmlEvent::Open { name, empty, .. } => {
                    if str_eq(name.as_str(), "doc") {
                        self.builder = DocBuilder::new();
                        if *empty {
                            return self.close_doc();
                        }
                        self.phase = Phase::Fields;
                        self.depth = 0;
                    }
                    Ok(())
                },
                XmlEvent::Eof => {
                    self.phase = Phase::Done;
                    Ok(())
                },
                _ => Ok(()),
            },
            _ => match e {
                XmlEvent::Open { local_name, attributes, empty, .. } => self.open_in_doc(
                    local_name,
                    attributes,
                    *empty,
                ),
                XmlEvent::Close { name } => {
                    if self.depth > 0 {
                        self.depth = self.depth - 1;
                        Ok(())
                    } else if self.phase == Phase::Fields && str_eq(name.as_str(), "doc") {
                        self.close_doc()
                    } else {
                        Err(ParseError::Malformed)
                    }
                },
                XmlEvent::Text { text } => {
                    if self.phase == Phase::AwaitText && !blank(text.as_str()) {
                        let r = self.builder.absorb(self.kind, self.dsid.clone(), text.clone());
                        match r {
                            Err(x) => Err(x),
                            Ok(()) => {
                                self.phase = Phase::Fields;
                                Ok(())
                            },
                        }
                    } else {
                        Ok(())
                    }
                },
                XmlEvent::Eof => Err(ParseError::Malformed),
                XmlEvent::Other => Ok(()),
            },
        }
    }
}

} // verus!
