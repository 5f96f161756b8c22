//! The per-document builder: routes each field by its name and turns the
//! fields of one `doc` element into an object and its datastreams.
use vstd::prelude::*;
use vstd::pervasive::VecAdditionalExecFns;
use crate::error::ParseError;
use crate::record::{Datastream, DatastreamV, Object, ObjectV, datastreams_view};
use crate::text::{bool_of, ends_with, has_prefix, has_suffix, parse_bool, str_eq, strip_prefix, strip_suffix};

verus! {

/// Where the value of a field goes.
#[derive(Clone, Copy, Debug, PartialEq, Eq, Structural)]
pub enum FieldKind {
    Pid,
    Md5,
    Hidden,
    Model,
    Datastream,
    Ignored,
}

/// How a field name is routed; a datastream checksum field also yields its dsid.
pub open spec fn route(name: Seq<char>) -> Result<(FieldKind, Seq<char>), ParseError> {
    if name == "PID"@ {
        Ok((FieldKind::Pid, Seq::empty()))
    } else if name == "checksum_s"@ {
        Ok((FieldKind::Md5, Seq::empty()))
    } else if name == "hidden_b"@ {
        Ok((FieldKind::Hidden, Seq::empty()))
    } else if name == "RELS_EXT_hasModel_uri_s"@ {
        Ok((FieldKind::Model, Seq::empty()))
    } else if has_suffix(name, "MD5_ms"@) {
        let pre = "fedora_datastream_latest_"@;
        let suf = "_MD5_ms"@;
        if has_prefix(name, pre) && has_suffix(name.subrange(pre.len() as int, name.len() as int), suf) {
            Ok((FieldKind::Datastream, name.subrange(pre.len() as int, name.len() - suf.len())))
        } else {
            Err(ParseError::NamingViolation)
        }
    } else {
        Ok((FieldKind::Ignored, Seq::empty()))
    }
}

pub fn route_field(name: &str) -> (r: Result<(FieldKind, String), ParseError>)
    ensures
        match r {
            Ok((k, d)) => route(name@) == Ok::<(FieldKind, Seq<char>), ParseError>((k, d@)),
            Err(e) => route(name@) == Err::<(FieldKind, Seq<char>), ParseError>(e),
        },
{
    if str_eq(name, "PID") {
        Ok((FieldKind::Pid, String::new()))
    } else if str_eq(name, "checksum_s") {
        Ok((FieldKind::Md5, String::new()))
    } else if str_eq(name, "hidden_b") {
        Ok((FieldKind::Hidden, String::new()))
    } else if str_eq(name, "RELS_EXT_hasModel_uri_s") {
        Ok((FieldKind::Model, String::new()))
    } else if ends_with(name, "MD5_ms") {
        let rest = match strip_prefix(name, "fedora_datastream_latest_") {
            Some(rest) => rest,
            None => return Err(ParseError::NamingViolation),
        };
        match strip_suffix(rest.as_str(), "_MD5_ms") {
            Some(dsid) => {
                let ghost pre = "fedora_datastream_latest_"@;
                let ghost suf = "_MD5_ms"@;
                assert(dsid@ =~= name@.subrange(pre.len() as int, name@.len() - suf.len()));
                Ok((FieldKind::Datastream, dsid))
            },
            None => Err(ParseError::NamingViolation),
        }
    } else {
        Ok((FieldKind::Ignored, String::new()))
    }
}

pub type Streams = Seq<(Seq<char>, Seq<char>)>;

pub open spec fn has_key(s: Streams, k: Seq<char>) -> bool {
    exists|i: int| 0 <= i < s.len() && (#[trigger] s[i]).0 == k
}

/// The checksum `v` recorded for `k`: replaces the one held for `k`, or is added last.
pub open spec fn upsert(s: Streams, k: Seq<char>, v: Seq<char>) -> Streams {
    if has_key(s, k) {
        s.map_values(|p: (Seq<char>, Seq<char>)| if p.0 == k { (k, v) } else { p })
    } else {
        s.push((k, v))
    }
}

pub open spec fn streams_view(s: Seq<(String, String)>) -> Streams {
    s.map_values(|p: (String, String)| (p.0@, p.1@))
}

/// What has been gathered of one `doc` so far.
pub struct BuilderV {
    pub pid: Option<Seq<char>>,
    pub md5: Option<Seq<char>>,
    pub private: Option<bool>,
    pub content_model: Option<Seq<char>>,
    pub streams: Streams,
}

pub open spec fn empty_builder() -> BuilderV {
    BuilderV { pid: None, md5: None, private: None, content_model: None, streams: Seq::empty() }
}

/// The builder after a field of kind `kind` (and dsid `dsid`) with value `value`.
pub open spec fn absorb(b: BuilderV, kind: FieldKind, dsid: Seq<char>, value: Seq<char>) -> Result<
    BuilderV,
    ParseError,
> {
    match kind {
        FieldKind::Pid => Ok(BuilderV { pid: Some(value), ..b }),
        FieldKind::Md5 => Ok(BuilderV { md5: Some(value), ..b }),
        FieldKind::Hidden => match bool_of(value) {
            Some(x) => Ok(BuilderV { private: Some(x), ..b }),
            None => Err(ParseError::InvalidBoolean),
        },
        FieldKind::Model => if has_prefix(value, "info:fedora/"@) {
            Ok(BuilderV { content_model: Some(value.subrange(12, value.len() as int)), ..b })
        } else {
            Err(ParseError::NamingViolation)
        },
        FieldKind::Datastream => Ok(BuilderV { streams: upsert(b.streams, dsid, value), ..b }),
        FieldKind::Ignored => Ok(b),
    }
}

pub open spec fn stream_record(pid: Seq<char>, p: (Seq<char>, Seq<char>)) -> DatastreamV {
    DatastreamV { pid, dsid: p.0, md5: p.1 }
}

/// The object and datastreams of a closed `doc`, or the error of a missing field.
pub open spec fn finish(b: BuilderV) -> Result<(ObjectV, Seq<DatastreamV>), ParseError> {
    if b.pid is Some && b.md5 is Some && b.private is Some && b.content_model is Some {
        let pid = b.pid.unwrap();
        Ok(
            (
                ObjectV {
                    pid,
                    content_model: b.content_model.unwrap(),
                    private: b.private.unwrap(),
                    md5: b.md5.unwrap(),
                },
                b.streams.map_values(|p: (Seq<char>, Seq<char>)| stream_record(pid, p)),
            ),
        )
    } else {
        Err(ParseError::MissingField)
    }
}

/// The scratch state of one `doc` element.
pub struct DocBuilder {
    pub pid: Option<String>,
    pub md5: Option<String>,
    pub private: Option<bool>,
    pub content_model: Option<String>,
    pub streams: Vec<(String, String)>,
}

pub open spec fn opt_view(o: Option<String>) -> Option<Seq<char>> {
    match o {
        Some(s) => Some(s@),
        None => None,
    }
}

impl View for DocBuilder {
    type V = BuilderV;

    open spec fn view(&self) -> BuilderV {
        BuilderV {
            pid: opt_view(self.pid),
            md5: opt_view(self.md5),
            private: self.private,
            content_model: opt_view(self.content_model),
            streams: streams_view(self.streams@),
        }
    }
}

fn put_stream(streams: &mut Vec<(String, String)>, k: String, v: String)
    ensures
        streams_view(final(streams)@) == upsert(streams_view(old(streams)@), k@, v@),
{
    let ghost s0 = streams_view(streams@);
    let mut found = false;
    let mut i: usize = 0;
    while i < streams.len()
        invariant
            i <= streams.len() == s0.len(),
            found == exists|j: int| 0 <= j < i && (#[trigger] s0[j]).0 == k@,
            forall|j: int|
                0 <= j < i ==> (#[trigger] streams_view(streams@)[j]) == (if s0[j].0 == k@ {
                    (k@, v@)
                } else {
                    s0[j]
                }),
            forall|j: int| i <= j < s0.len() ==> (#[trigger] streams_view(streams@)[j]) == s0[j],
        decreases s0.len() - i,
    {
        let ghost prev = streams@;
        assert(streams_view(prev)[i as int] == s0[i as int]);
        assert(s0[i as int] == (prev[i as int].0@, prev[i as int].1@));
        if str_eq(streams[i].0.as_str(), k.as_str()) {
            streams.set(i, (k.clone(), v.clone()));
            found = true;
            assert(s0[i as int].0 == k@);
        } else {
            assert(s0[i as int].0 != k@);
        }
        proof {
            assert forall|j: int| 0 <= j < s0.len() && j != i implies streams@[j] == prev[j] by {}
            assert forall|j: int| 0 <= j < s0.len() && j != i implies #[trigger] streams_view(
                streams@,
            )[j] == streams_view(prev)[j] by {}
        }
        i = i + 1;
    }
    if found {
        assert(streams_view(streams@) =~= upsert(s0, k@, v@));
    } else {
        assert(!has_key(s0, k@));
        assert(streams_view(streams@) =~= s0);
        let ghost mid = streams@;
        streams.push((k, v));
        assert(streams_view(streams@) =~= streams_view(mid).push((k@, v@)));
        assert(streams_view(streams@) =~= upsert(s0, k@, v@));
    }
}

impl DocBuilder {
    pub fn new() -> (r: Self)
        ensures
            r@ == empty_builder(),
    {
        let r = DocBuilder {
            pid: None,
            md5: None,
            private: None,
            content_model: None,
            streams: Vec::new(),
        };
        assert(r@.streams =~= Seq::<(Seq<char>, Seq<char>)>::empty());
        r
    }

    /// Records the value of a field whose name routed to `kind` (and `dsid`).
    pub fn absorb(&mut self, kind: FieldKind, dsid: String, value: String) -> (r: Result<(), ParseError>)
        ensures
            match absorb(old(self)@, kind, dsid@, value@) {
                Ok(b) => r is Ok && final(self)@ == b,
                Err(e) => r == Err::<(), ParseError>(e),
            },
    {
        match kind {
            FieldKind::Pid => {
                self.pid = Some(value);
            },
            FieldKind::Md5 => {
                self.md5 = Some(value);
            },
            FieldKind::Hidden => match parse_bool(value.as_str()) {
                Some(x) => {
                    self.private = Some(x);
                },
                None => {
                    return Err(ParseError::InvalidBoolean);
                },
            },
            FieldKind::Model => match strip_prefix(value.as_str(), "info:fedora/") {
                Some(m) => {
                    proof {
                        reveal_strlit("info:fedora/");
                    }
                    self.content_model = Some(m);
                },
                None => {
                    return Err(ParseError::NamingViolation);
                },
            },
            FieldKind::Datastream => {
                put_stream(&mut self.streams, dsid, value);
            },
            FieldKind::Ignored => {},
        }
        Ok(())
    }

    /// The object and its datastreams, once the `doc` has closed.
    pub fn finish(self) -> (r: Result<(Object, Vec<Datastream>), ParseError>)
        ensures
            match finish(self@) {
                Ok((o, ds)) => r matches Ok((ro, rds)) && ro@ == o && datastreams_view(rds@) == ds,
                Err(e) => r == Err::<(Object, Vec<Datastream>), ParseError>(e),
            },
    {
        let DocBuilder { pid, md5, private, content_model, streams } = self;
        let (pid, md5, private, content_model) = match (pid, md5, private, content_model) {
            (Some(a), Some(b), Some(c), Some(d)) => (a, b, c, d),
            _ => return Err(ParseError::MissingField),
        };
        let ghost sv = streams_view(streams@);
        let mut out: Vec<Datastream> = Vec::new();
        let mut i: usize = 0;
        while i < streams.len()
            invariant
                i <= streams.len(),
                sv == streams_view(streams@),
                datastreams_view(out@) =~= sv.subrange(0, i as int).map_values(
                    |p: (Seq<char>, Seq<char>)| stream_record(pid@, p),
                ),
            decreases streams.len() - i,
        {
            let d = Datastream::new(pid.clone(), streams[i].0.clone(), streams[i].1.clone());
            let ghost before = out@;
            out.push(d);
            proof {
                assert(sv[i as int] == (streams@[i as int].0@, streams@[i as int].1@));
                assert(datastreams_view(out@) =~= datastreams_view(before).push(d@));
                assert(sv.subrange(0, i + 1) =~= sv.subrange(0, i as int).push(sv[i as int]));
            }
            i = i + 1;
        }
        assert(sv.subrange(0, i as int) =~= sv);
        Ok((Object::new(pid, content_model, private, md5), out))
    }
}

/// A field of a `doc` with the value that was read for it.
pub struct FieldV {
    pub name: Seq<char>,
    pub value: Seq<char>,
}

pub open spec fn absorb_field(b: BuilderV, f: FieldV) -> Result<BuilderV, ParseError> {
    match route(f.name) {
        Err(e) => Err(e),
        Ok((k, d)) => absorb(b, k, d, f.value),
    }
}

/// The builder after the fields of a `doc`, in document order.
pub open spec fn absorb_all(fields: Seq<FieldV>) -> Result<BuilderV, ParseError>
    decreases fields.len(),
{
    if fields.len() == 0 {
        Ok(empty_builder())
    } else {
        match absorb_all(fields.drop_last()) {
            Err(e) => Err(e),
            Ok(b) => absorb_field(b, fields.last()),
        }
    }
}

/// The records that a `doc` with these fields yields.
pub open spec fn assemble(fields: Seq<FieldV>) -> Result<(ObjectV, Seq<DatastreamV>), ParseError> {
    match absorb_all(fields) {
        Err(e) => Err(e),
        Ok(b) => finish(b),
    }
}

} // verus!
