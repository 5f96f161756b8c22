//! Properties of the document assembler, the response walker and the SQL
//! rendering, each proved from the definitions the executable code meets.
use vstd::prelude::*;
use crate::assembler::{
    absorb, absorb_all, absorb_field, assemble, empty_builder, finish, has_key, route, upsert,
    BuilderV, FieldKind, FieldV, Streams,
};
use crate::error::ParseError;
use crate::event::{attribute_value, XmlEventV};
use crate::record::{
    label_of,
    datastream_rows, datastreams_sql, object_rows, objects_sql, DatastreamV, ObjectV,
};
use crate::response::sql_of;
use crate::text::{bool_of, has_prefix, has_suffix, is_blank};
use crate::walker::{close_doc, in_doc, initial, run_from, step, walk, Phase, WalkerV};

verus! {

/// The field's name routes to a kind, and its value is acceptable for that kind.
pub open spec fn valid_field(f: FieldV) -> bool {
    match route(f.name) {
        Err(_) => false,
        Ok((k, _)) => (k == FieldKind::Hidden ==> bool_of(f.value) is Some) && (k
            == FieldKind::Model ==> has_prefix(f.value, "info:fedora/"@)),
    }
}

pub open spec fn has_name(fields: Seq<FieldV>, n: Seq<char>) -> bool {
    exists|i: int| 0 <= i < fields.len() && (#[trigger] fields[i]).name == n
}

pub open spec fn is_stream(f: FieldV) -> bool {
    route(f.name) matches Ok((k, _)) && k == FieldKind::Datastream
}

pub open spec fn dsid_of(f: FieldV) -> Seq<char> {
    match route(f.name) {
        Ok((_, d)) => d,
        Err(_) => Seq::empty(),
    }
}

/// The dsids that the datastream checksum fields name.
pub open spec fn stream_dsids(fields: Seq<FieldV>) -> Set<Seq<char>> {
    Set::new(
        |d: Seq<char>|
            exists|i: int| 0 <= i < fields.len() && is_stream(#[trigger] fields[i]) && dsid_of(fields[i]) == d,
    )
}

/// The value of the last datastream checksum field for `d`.
pub open spec fn last_value(fields: Seq<FieldV>, d: Seq<char>) -> Seq<char>
    decreases fields.len(),
{
    if fields.len() == 0 {
        Seq::empty()
    } else if is_stream(fields.last()) && dsid_of(fields.last()) == d {
        fields.last().value
    } else {
        last_value(fields.drop_last(), d)
    }
}

/// The value of the last field named `n`.
pub open spec fn last_named(fields: Seq<FieldV>, n: Seq<char>) -> Seq<char>
    decreases fields.len(),
{
    if fields.len() == 0 {
        Seq::empty()
    } else if fields.last().name == n {
        fields.last().value
    } else {
        last_named(fields.drop_last(), n)
    }
}

pub open spec fn keys_unique(s: Streams) -> bool {
    forall|i: int, j: int| 0 <= i < j < s.len() ==> (#[trigger] s[i]).0 != (#[trigger] s[j]).0
}

/// What the builder holds after valid fields.
pub open spec fn describes(b: BuilderV, fields: Seq<FieldV>) -> bool {
    &&& (b.pid is Some <==> has_name(fields, "PID"@))
    &&& (b.md5 is Some <==> has_name(fields, "checksum_s"@))
    &&& (b.private is Some <==> has_name(fields, "hidden_b"@))
    &&& (b.content_model is Some <==> has_name(fields, "RELS_EXT_hasModel_uri_s"@))
    &&& (b.pid matches Some(p) ==> p == last_named(fields, "PID"@))
    &&& (b.md5 matches Some(m) ==> m == last_named(fields, "checksum_s"@))
    &&& (b.private matches Some(x) ==> bool_of(last_named(fields, "hidden_b"@)) == Some(x))
    &&& (b.content_model matches Some(c) ==> c == last_named(
        fields,
        "RELS_EXT_hasModel_uri_s"@,
    ).subrange(12, last_named(fields, "RELS_EXT_hasModel_uri_s"@).len() as int))
    &&& keys_unique(b.streams)
    &&& forall|d: Seq<char>| has_key(b.streams, d) <==> #[trigger] stream_dsids(fields).contains(d)
    &&& forall|i: int|
        0 <= i < b.streams.len() ==> (#[trigger] b.streams[i]).1 == last_value(fields, b.streams[i].0)
}

proof fn lemma_route_kind(n: Seq<char>)
    ensures
        route(n) is Ok ==> (route(n)->Ok_0.0 == FieldKind::Pid <==> n == "PID"@),
        route(n) is Ok ==> (route(n)->Ok_0.0 == FieldKind::Md5 <==> n == "checksum_s"@),
        route(n) is Ok ==> (route(n)->Ok_0.0 == FieldKind::Hidden <==> n == "hidden_b"@),
        route(n) is Ok ==> (route(n)->Ok_0.0 == FieldKind::Model <==> n
            == "RELS_EXT_hasModel_uri_s"@),
{
    reveal_strlit("PID");
    reveal_strlit("checksum_s");
    reveal_strlit("hidden_b");
    reveal_strlit("RELS_EXT_hasModel_uri_s");
    assert("PID"@.len() == 3);
    assert("checksum_s"@.len() == 10);
    assert("hidden_b"@.len() == 8);
    assert("RELS_EXT_hasModel_uri_s"@.len() == 23);
}

proof fn lemma_upsert(s: Streams, k: Seq<char>, v: Seq<char>)
    requires
        keys_unique(s),
    ensures
        keys_unique(upsert(s, k, v)),
        forall|d: Seq<char>| has_key(upsert(s, k, v), d) <==> (has_key(s, d) || d == k),
        forall|i: int|
            0 <= i < upsert(s, k, v).len() ==> (#[trigger] upsert(s, k, v)[i]).0 == k
                || upsert(s, k, v)[i] == s[i],
        forall|i: int| 0 <= i < upsert(s, k, v).len() && (#[trigger] upsert(s, k, v)[i]).0 == k
            ==> upsert(s, k, v)[i].1 == v,
{
    let u = upsert(s, k, v);
    if has_key(s, k) {
        assert forall|d: Seq<char>| has_key(u, d) <==> (has_key(s, d) || d == k) by {
            if has_key(s, d) {
                let i = choose|i: int| 0 <= i < s.len() && (#[trigger] s[i]).0 == d;
                assert(u[i].0 == d);
            }
            if d == k {
                let i = choose|i: int| 0 <= i < s.len() && (#[trigger] s[i]).0 == k;
                assert(u[i].0 == d);
            }
            if has_key(u, d) {
                let i = choose|i: int| 0 <= i < u.len() && (#[trigger] u[i]).0 == d;
                if d != k {
                    assert(s[i].0 == d);
                }
            }
        }
    } else {
        assert forall|d: Seq<char>| has_key(u, d) <==> (has_key(s, d) || d == k) by {
            if has_key(s, d) {
                let i = choose|i: int| 0 <= i < s.len() && (#[trigger] s[i]).0 == d;
                assert(u[i].0 == d);
            }
            if d == k {
                assert(u[s.len() as int].0 == d);
            }
            if has_key(u, d) {
                let i = choose|i: int| 0 <= i < u.len() && (#[trigger] u[i]).0 == d;
                if i < s.len() {
                    assert(s[i].0 == d);
                }
            }
        }
        assert forall|i: int, j: int| 0 <= i < j < u.len() implies (#[trigger] u[i]).0 != (
        #[trigger] u[j]).0 by {
            if j == s.len() {
                assert(s[i].0 != k);
            }
        }
    }
}

proof fn lemma_has_name_last(fields: Seq<FieldV>, n: Seq<char>)
    requires
        fields.len() > 0,
    ensures
        has_name(fields, n) <==> (has_name(fields.drop_last(), n) || fields.last().name == n),
{
    let pre = fields.drop_last();
    if has_name(fields, n) {
        let i = choose|i: int| 0 <= i < fields.len() && (#[trigger] fields[i]).name == n;
        if i < pre.len() {
            assert(pre[i].name == n);
        }
    }
    if has_name(pre, n) {
        let i = choose|i: int| 0 <= i < pre.len() && (#[trigger] pre[i]).name == n;
        assert(fields[i].name == n);
    }
    if fields.last().name == n {
        assert(fields[fields.len() - 1].name == n);
    }
}

proof fn lemma_absorb_all(fields: Seq<FieldV>)
    ensures
        (absorb_all(fields) is Ok) <==> (forall|i: int|
            0 <= i < fields.len() ==> valid_field(#[trigger] fields[i])),
        absorb_all(fields) matches Ok(b) ==> describes(b, fields),
    decreases fields.len(),
{
    if fields.len() == 0 {
        assert(stream_dsids(fields) =~= Set::empty());
    } else {
        let pre = fields.drop_last();
        let f = fields.last();
        let n = fields.len() - 1;
        lemma_absorb_all(pre);
        lemma_route_kind(f.name);
        assert forall|i: int| 0 <= i < n implies #[trigger] fields[i] == pre[i] by {}
        if absorb_all(pre) is Ok {
            let b = absorb_all(pre)->Ok_0;
            if valid_field(f) {
                let (k, d) = route(f.name)->Ok_0;
                let b2 = absorb(b, k, d, f.value)->Ok_0;
                assert(absorb_all(fields) == Ok::<BuilderV, ParseError>(b2));
                assert(forall|i: int| 0 <= i < fields.len() ==> valid_field(#[trigger] fields[i]))
                    by {
                    assert forall|i: int| 0 <= i < fields.len() implies valid_field(
                        #[trigger] fields[i],
                    ) by {
                        if i < n {
                            assert(valid_field(pre[i]));
                        }
                    }
                }
                lemma_has_name_last(fields, "PID"@);
                lemma_has_name_last(fields, "checksum_s"@);
                lemma_has_name_last(fields, "hidden_b"@);
                lemma_has_name_last(fields, "RELS_EXT_hasModel_uri_s"@);
                lemma_route_kind(f.name);
                reveal_strlit("info:fedora/");
                assert forall|x: Seq<char>| #[trigger] stream_dsids(fields).contains(x) <==> (
                stream_dsids(pre).contains(x) || (is_stream(f) && dsid_of(f) == x)) by {
                    if stream_dsids(fields).contains(x) {
                        let i = choose|i: int|
                            0 <= i < fields.len() && is_stream(#[trigger] fields[i]) && dsid_of(
                                fields[i],
                            ) == x;
                        if i < n {
                            assert(is_stream(pre[i]) && dsid_of(pre[i]) == x);
                        }
                    }
                    if stream_dsids(pre).contains(x) {
                        let i = choose|i: int|
                            0 <= i < pre.len() && is_stream(#[trigger] pre[i]) && dsid_of(pre[i])
                                == x;
                        assert(is_stream(fields[i]) && dsid_of(fields[i]) == x);
                    }
                    if is_stream(f) && dsid_of(f) == x {
                        assert(is_stream(fields[n]) && dsid_of(fields[n]) == x);
                    }
                }
                assert forall|x: Seq<char>| !(is_stream(f) && dsid_of(f) == x) implies #[trigger] last_value(
                    fields,
                    x,
                ) == last_value(pre, x) by {}
                if k == FieldKind::Datastream {
                    lemma_upsert(b.streams, d, f.value);
                    let u = upsert(b.streams, d, f.value);
                    assert forall|i: int| 0 <= i < u.len() implies (#[trigger] u[i]).1 == last_value(
                        fields,
                        u[i].0,
                    ) by {
                        if u[i].0 != d {
                            assert(u[i] == b.streams[i]);
                            assert(last_value(fields, u[i].0) == last_value(pre, u[i].0));
                        }
                    }
                } else {
                    assert forall|i: int| 0 <= i < b2.streams.len() implies (
                    #[trigger] b2.streams[i]).1 == last_value(fields, b2.streams[i].0) by {
                        assert(last_value(fields, b2.streams[i].0) == last_value(
                            pre,
                            b2.streams[i].0,
                        ));
                    }
                }
            } else {
                assert(!valid_field(fields[n]));
            }
        } else {
            assert(absorb_all(fields) is Err);
            let i = choose|i: int| 0 <= i < pre.len() && !valid_field(#[trigger] pre[i]);
            assert(!valid_field(fields[i]));
        }
    }
}

proof fn lemma_model_prefix(fields: Seq<FieldV>)
    requires
        forall|i: int| 0 <= i < fields.len() ==> valid_field(#[trigger] fields[i]),
        has_name(fields, "RELS_EXT_hasModel_uri_s"@),
    ensures
        has_prefix(last_named(fields, "RELS_EXT_hasModel_uri_s"@), "info:fedora/"@),
    decreases fields.len(),
{
    let n = "RELS_EXT_hasModel_uri_s"@;
    lemma_has_name_last(fields, n);
    lemma_route_kind(n);
    if fields.last().name == n {
        assert(valid_field(fields[fields.len() - 1]));
    } else {
        assert forall|i: int| 0 <= i < fields.drop_last().len() implies valid_field(
            #[trigger] fields.drop_last()[i],
        ) by {
            assert(fields.drop_last()[i] == fields[i]);
        }
        lemma_model_prefix(fields.drop_last());
    }
}

/// A `doc` whose fields are all acceptable, that holds each of the four
/// required fields and no datastream checksum field, yields exactly one object
/// and no datastream.
pub proof fn scalar_doc_yields_one_object(fields: Seq<FieldV>)
    requires
        forall|i: int| 0 <= i < fields.len() ==> valid_field(#[trigger] fields[i]),
        forall|i: int| 0 <= i < fields.len() ==> !is_stream(#[trigger] fields[i]),
        has_name(fields, "PID"@),
        has_name(fields, "checksum_s"@),
        has_name(fields, "hidden_b"@),
        has_name(fields, "RELS_EXT_hasModel_uri_s"@),
    ensures
        assemble(fields) matches Ok((o, ds)) && ds.len() == 0 && o.pid == last_named(
            fields,
            "PID"@,
        ) && o.md5 == last_named(fields, "checksum_s"@) && bool_of(
            last_named(fields, "hidden_b"@),
        ) == Some(o.private) && "info:fedora/"@ + o.content_model == last_named(
            fields,
            "RELS_EXT_hasModel_uri_s"@,
        ),
{
    lemma_absorb_all(fields);
    let b = absorb_all(fields)->Ok_0;
    let m = last_named(fields, "RELS_EXT_hasModel_uri_s"@);
    lemma_model_prefix(fields);
    reveal_strlit("info:fedora/");
    assert("info:fedora/"@ + m.subrange(12, m.len() as int) =~= m);
    if b.streams.len() > 0 {
        let k = b.streams[0].0;
        assert(has_key(b.streams, k));
        assert(stream_dsids(fields).contains(k));
        let i = choose|i: int|
            0 <= i < fields.len() && is_stream(#[trigger] fields[i]) && dsid_of(fields[i]) == k;
        assert(false);
    }
}

/// A `doc` that assembles yields one datastream per distinct dsid among its
/// datastream checksum fields, each one referring to the object's pid.
pub proof fn one_datastream_per_dsid(fields: Seq<FieldV>)
    requires
        assemble(fields) is Ok,
    ensures
        assemble(fields) matches Ok((o, ds)) && ds.len() == stream_dsids(fields).len()
            && ds.map_values(|d: DatastreamV| d.dsid).to_set() == stream_dsids(fields) && (
        forall|i: int| 0 <= i < ds.len() ==> (#[trigger] ds[i]).pid == o.pid),
{
    lemma_absorb_all(fields);
    let b = absorb_all(fields)->Ok_0;
    let (o, ds) = finish(b)->Ok_0;
    let keys = b.streams.map_values(|p: (Seq<char>, Seq<char>)| p.0);
    assert(ds.map_values(|d: DatastreamV| d.dsid) =~= keys);
    assert(keys.no_duplicates()) by {
        assert forall|i: int, j: int| 0 <= i < keys.len() && 0 <= j < keys.len() && i != j
            implies keys[i] != keys[j] by {
            if i < j {
                assert(b.streams[i].0 != b.streams[j].0);
            } else {
                assert(b.streams[j].0 != b.streams[i].0);
            }
        }
    }
    assert(keys.to_set() =~= stream_dsids(fields)) by {
        assert forall|x: Seq<char>| keys.to_set().contains(x) <==> stream_dsids(fields).contains(x) by {
            if keys.to_set().contains(x) {
                let i = choose|i: int| 0 <= i < keys.len() && keys[i] == x;
                assert(b.streams[i].0 == x);
                assert(has_key(b.streams, x));
            }
            if stream_dsids(fields).contains(x) {
                assert(has_key(b.streams, x));
                let i = choose|i: int| 0 <= i < b.streams.len() && (#[trigger] b.streams[i]).0 == x;
                assert(keys[i] == x);
            }
        }
    }
    keys.unique_seq_to_set();
}

/// Where several datastream checksum fields of a `doc` name the same dsid, the
/// datastream holds the value of the last of them in document order.
pub proof fn last_checksum_wins(fields: Seq<FieldV>)
    requires
        assemble(fields) is Ok,
    ensures
        assemble(fields) matches Ok((_, ds)) && forall|i: int|
            0 <= i < ds.len() ==> (#[trigger] ds[i]).md5 == last_value(fields, ds[i].dsid),
{
    lemma_absorb_all(fields);
}

/// A `doc` that lacks one of the four required fields fails; with fields that
/// are otherwise acceptable, with the missing-field error.
pub proof fn missing_field_fails(fields: Seq<FieldV>)
    requires
        !has_name(fields, "PID"@) || !has_name(fields, "checksum_s"@) || !has_name(
            fields,
            "hidden_b"@,
        ) || !has_name(fields, "RELS_EXT_hasModel_uri_s"@),
    ensures
        assemble(fields) is Err,
        (forall|i: int| 0 <= i < fields.len() ==> valid_field(#[trigger] fields[i])) ==> assemble(
            fields,
        ) == Err::<(ObjectV, Seq<DatastreamV>), ParseError>(ParseError::MissingField),
{
    lemma_absorb_all(fields);
}

/// The event opens a `doc` element.
pub open spec fn opens_doc(e: XmlEventV) -> bool {
    e matches XmlEventV::Open { name, .. } && name == "doc"@
}

proof fn lemma_quiet_run(w: WalkerV, evs: Seq<XmlEventV>, i: int)
    requires
        w.phase == Phase::Outside || w.phase == Phase::Done,
        0 <= i,
        forall|j: int| i <= j < evs.len() ==> !opens_doc(#[trigger] evs[j]),
    ensures
        run_from(w, evs, i) matches Ok(w2) && (w2.phase == Phase::Outside || w2.phase
            == Phase::Done) && w2.objects == w.objects && w2.datastreams == w.datastreams,
    decreases evs.len() - i,
{
    if i < evs.len() {
        assert(!opens_doc(evs[i]));
        let w2 = step(w, evs[i])->Ok_0;
        lemma_quiet_run(w2, evs, i + 1);
    }
}

/// A document without any `doc` element yields no object and no datastream,
/// and its SQL text is the two blocks with no value tuple.
pub proof fn no_doc_no_records(evs: Seq<XmlEventV>)
    requires
        forall|i: int| 0 <= i < evs.len() ==> !opens_doc(#[trigger] evs[i]),
    ensures
        walk(evs) == Ok::<(Seq<ObjectV>, Seq<DatastreamV>), ParseError>(
            (Seq::empty(), Seq::empty()),
        ),
        sql_of(evs) == Ok::<Seq<char>, ParseError>(
            objects_sql(Seq::empty()) + datastreams_sql(Seq::empty()),
        ),
{
    lemma_quiet_run(initial(), evs, 0);
}

/// With no records, each block is its TRUNCATE statement followed by an
/// INSERT that lists no value tuple.
pub proof fn empty_collections_sql()
    ensures
        objects_sql(Seq::empty())
            == "\nTRUNCATE TABLE livingstone_fedora_local_objects;\nINSERT INTO livingstone_fedora_local_objects (pid, content_model, private, type, md5)\nVALUES\n;\n\n"@,
        datastreams_sql(Seq::empty())
            == "\nTRUNCATE TABLE livingstone_fedora_local_datastreams;\nINSERT INTO livingstone_fedora_local_datastreams (pid, dsid, md5)\nVALUES\n;\n\n"@,
{
    assert(object_rows(Seq::empty()) =~= Seq::empty());
    assert(datastream_rows(Seq::empty()) =~= Seq::empty());
    reveal_strlit(
        "\nTRUNCATE TABLE livingstone_fedora_local_objects;\nINSERT INTO livingstone_fedora_local_objects (pid, content_model, private, type, md5)\nVALUES\n",
    );
    reveal_strlit(";\n\n");
    reveal_strlit(
        "\nTRUNCATE TABLE livingstone_fedora_local_objects;\nINSERT INTO livingstone_fedora_local_objects (pid, content_model, private, type, md5)\nVALUES\n;\n\n",
    );
    reveal_strlit(
        "\nTRUNCATE TABLE livingstone_fedora_local_datastreams;\nINSERT INTO livingstone_fedora_local_datastreams (pid, dsid, md5)\nVALUES\n",
    );
    reveal_strlit(
        "\nTRUNCATE TABLE livingstone_fedora_local_datastreams;\nINSERT INTO livingstone_fedora_local_datastreams (pid, dsid, md5)\nVALUES\n;\n\n",
    );
    assert(objects_sql(Seq::empty())
        =~= "\nTRUNCATE TABLE livingstone_fedora_local_objects;\nINSERT INTO livingstone_fedora_local_objects (pid, content_model, private, type, md5)\nVALUES\n;\n\n"@);
    assert(datastreams_sql(Seq::empty())
        =~= "\nTRUNCATE TABLE livingstone_fedora_local_datastreams;\nINSERT INTO livingstone_fedora_local_datastreams (pid, dsid, md5)\nVALUES\n;\n\n"@);
}

/// The records that documents with these fields yield, one after the other.
pub open spec fn records_of(docs: Seq<Seq<FieldV>>) -> (Seq<ObjectV>, Seq<DatastreamV>)
    decreases docs.len(),
{
    if docs.len() == 0 {
        (Seq::empty(), Seq::empty())
    } else {
        let (o, d) = records_of(docs.drop_last());
        let (ob, ds) = assemble(docs.last())->Ok_0;
        (o.push(ob), d + ds)
    }
}

/// What the walker has read so far, as fields: the name of the field being
/// read, the fields of the open `doc`, and those of each closed one.
pub struct Reading {
    pub name: Seq<char>,
    pub fields: Seq<FieldV>,
    pub docs: Seq<Seq<FieldV>>,
}

pub open spec fn matches_reading(w: WalkerV, r: Reading) -> bool {
    &&& (w.objects, w.datastreams) == records_of(r.docs)
    &&& forall|k: int| 0 <= k < r.docs.len() ==> (#[trigger] assemble(r.docs[k])) is Ok
    &&& in_doc(w.phase) ==> absorb_all(r.fields) == Ok::<BuilderV, ParseError>(w.builder)
    &&& (w.phase == Phase::AwaitFragment || w.phase == Phase::AwaitText) ==> route(r.name)
        == Ok::<(FieldKind, Seq<char>), ParseError>((w.kind, w.dsid))
}

/// How an event changes what has been read; an ignored field carries no value.
pub open spec fn read_step(w: WalkerV, e: XmlEventV, r: Reading) -> Reading {
    match w.phase {
        Phase::Outside => match e {
            XmlEventV::Open { name, .. } => if name == "doc"@ {
                Reading { fields: Seq::empty(), ..r }
            } else {
                r
            },
            _ => r,
        },
        Phase::Done => r,
        _ => match e {
            XmlEventV::Open { attributes, .. } => if w.phase == Phase::Fields && w.depth == 0 {
                match attribute_value(attributes, "name"@) {
                    Some(n) => match route(n) {
                        Ok((k, _)) => if k == FieldKind::Ignored {
                            Reading {
                                fields: r.fields.push(FieldV { name: n, value: Seq::empty() }),
                                ..r
                            }
                        } else {
                            Reading { name: n, ..r }
                        },
                        Err(_) => r,
                    },
                    None => r,
                }
            } else {
                r
            },
            XmlEventV::Close { name } => if w.depth == 0 && w.phase == Phase::Fields && name
                == "doc"@ {
                Reading { docs: r.docs.push(r.fields), ..r }
            } else {
                r
            },
            XmlEventV::Text { text } => if w.phase == Phase::AwaitText && !is_blank(text) {
                Reading { fields: r.fields.push(FieldV { name: r.name, value: text }), ..r }
            } else {
                r
            },
            _ => r,
        },
    }
}

/// What has been read after the events of `evs` from index `i` on.
pub open spec fn read_from(w: WalkerV, r: Reading, evs: Seq<XmlEventV>, i: int) -> Reading
    decreases evs.len() - i,
{
    if i < 0 || i >= evs.len() {
        r
    } else {
        match step(w, evs[i]) {
            Err(_) => r,
            Ok(w2) => read_from(w2, read_step(w, evs[i], r), evs, i + 1),
        }
    }
}

/// The fields of each `doc` of an event stream, in document order; a field
/// whose name routes nowhere carries no value.
pub open spec fn doc_fields(evs: Seq<XmlEventV>) -> Seq<Seq<FieldV>> {
    let r0 = Reading { name: Seq::empty(), fields: Seq::empty(), docs: Seq::empty() };
    let r = read_from(initial(), r0, evs, 0);
    match run_from(initial(), evs, 0) {
        Ok(w) => read_step(w, XmlEventV::Eof, r).docs,
        Err(_) => r.docs,
    }
}

proof fn lemma_absorb_push(fields: Seq<FieldV>, f: FieldV)
    ensures
        absorb_all(fields.push(f)) == match absorb_all(fields) {
            Err(e) => Err(e),
            Ok(b) => absorb_field(b, f),
        },
{
    assert(fields.push(f).drop_last() =~= fields);
}

proof fn lemma_close(w: WalkerV, r: Reading)
    requires
        matches_reading(w, r),
        in_doc(w.phase),
        close_doc(w) is Ok,
    ensures
        matches_reading(close_doc(w)->Ok_0, Reading { docs: r.docs.push(r.fields), ..r }),
{
    let docs = r.docs.push(r.fields);
    assert(docs.drop_last() =~= r.docs);
    assert(docs.last() == r.fields);
    assert(assemble(r.fields) == finish(w.builder));
    assert(records_of(docs) == (
        records_of(r.docs).0.push(assemble(r.fields)->Ok_0.0),
        records_of(r.docs).1 + assemble(r.fields)->Ok_0.1,
    ));
    assert forall|k: int| 0 <= k < docs.len() implies (#[trigger] assemble(docs[k])) is Ok by {
        if k < r.docs.len() {
            assert(docs[k] == r.docs[k]);
        }
    }
}

proof fn lemma_read_step(w: WalkerV, e: XmlEventV, r: Reading)
    requires
        matches_reading(w, r),
        step(w, e) is Ok,
    ensures
        matches_reading(step(w, e)->Ok_0, read_step(w, e, r)),
{
    assert(absorb_all(Seq::<FieldV>::empty()) == Ok::<BuilderV, ParseError>(empty_builder()));
    if in_doc(w.phase) {
        match e {
            XmlEventV::Open { attributes, .. } => {
                if w.phase == Phase::Fields && w.depth == 0 {
                    match attribute_value(attributes, "name"@) {
                        Some(n) => {
                            if route(n) matches Ok((k, _)) && k == FieldKind::Ignored {
                                lemma_absorb_push(r.fields, FieldV { name: n, value: Seq::empty() });
                            }
                        },
                        None => {},
                    }
                }
            },
            XmlEventV::Close { name } => {
                if w.depth == 0 && w.phase == Phase::Fields && name == "doc"@ {
                    lemma_close(w, r);
                }
            },
            XmlEventV::Text { text } => {
                if w.phase == Phase::AwaitText && !is_blank(text) {
                    lemma_absorb_push(r.fields, FieldV { name: r.name, value: text });
                }
            },
            _ => {},
        }
    }
}

proof fn lemma_read_run(w: WalkerV, r: Reading, evs: Seq<XmlEventV>, i: int)
    requires
        matches_reading(w, r),
        0 <= i,
        run_from(w, evs, i) is Ok,
    ensures
        matches_reading(run_from(w, evs, i)->Ok_0, read_from(w, r, evs, i)),
    decreases evs.len() - i,
{
    if i < evs.len() {
        lemma_read_step(w, evs[i], r);
        lemma_read_run(step(w, evs[i])->Ok_0, read_step(w, evs[i], r), evs, i + 1);
    }
}

pub open spec fn has_required(fields: Seq<FieldV>) -> bool {
    has_name(fields, "PID"@) && has_name(fields, "checksum_s"@) && has_name(fields, "hidden_b"@)
        && has_name(fields, "RELS_EXT_hasModel_uri_s"@)
}

/// What a document yields is, `doc` by `doc` in document order, what the
/// assembler makes of that `doc`'s fields; and a run that succeeds read all
/// four required fields in every `doc`. So each law of the assembler holds of
/// every object and its datastreams that the walker yields.
pub proof fn walk_assembles_each_doc(evs: Seq<XmlEventV>)
    requires
        walk(evs) is Ok,
    ensures
        records_of(doc_fields(evs)) == walk(evs)->Ok_0,
        forall|k: int|
            0 <= k < doc_fields(evs).len() ==> (#[trigger] assemble(doc_fields(evs)[k])) is Ok
                && has_required(doc_fields(evs)[k]),
{
    let r0 = Reading { name: Seq::empty(), fields: Seq::empty(), docs: Seq::empty() };
    assert(matches_reading(initial(), r0));
    lemma_read_run(initial(), r0, evs, 0);
    let w = run_from(initial(), evs, 0)->Ok_0;
    let r = read_from(initial(), r0, evs, 0);
    lemma_read_step(w, XmlEventV::Eof, r);
    let r2 = read_step(w, XmlEventV::Eof, r);
    assert(r2.docs == doc_fields(evs));
    assert forall|k: int| 0 <= k < r2.docs.len() implies (#[trigger] assemble(r2.docs[k])) is Ok
        && has_required(r2.docs[k]) by {
        if !has_required(r2.docs[k]) {
            missing_field_fails(r2.docs[k]);
        }
    }
}

/// The `doc` with these fields yields an object and one datastream per
/// distinct dsid, each referring to the object's pid and holding the value of
/// the last field for its dsid.
pub open spec fn datastreams_follow_fields(fields: Seq<FieldV>) -> bool {
    assemble(fields) matches Ok((o, ds)) && ds.len() == stream_dsids(fields).len() && (forall|
        i: int,
    |
        0 <= i < ds.len() ==> (#[trigger] ds[i]).pid == o.pid && ds[i].md5 == last_value(
            fields,
            ds[i].dsid,
        ))
}

/// Of a document that walks without error, every `doc` yields one object and
/// one datastream per distinct dsid among its datastream checksum fields, each
/// referring to the object's pid and holding the value of the last field for
/// its dsid in document order.
pub proof fn walk_doc_datastreams(evs: Seq<XmlEventV>)
    requires
        walk(evs) is Ok,
    ensures
        records_of(doc_fields(evs)) == walk(evs)->Ok_0,
        forall|k: int|
            0 <= k < doc_fields(evs).len() ==> datastreams_follow_fields(
                #[trigger] doc_fields(evs)[k],
            ),
{
    walk_assembles_each_doc(evs);
    let docs = doc_fields(evs);
    assert forall|k: int| 0 <= k < docs.len() implies datastreams_follow_fields(
        #[trigger] docs[k],
    ) by {
        one_datastream_per_dsid(docs[k]);
        last_checksum_wins(docs[k]);
    }
}

/// A large image is labelled `no_crop` exactly when its pid ends with
/// `_noCrop`, and `illustrative` otherwise.
pub proof fn large_image_label(pid: Seq<char>)
    ensures
        label_of("islandora:sp_large_image_cmodel"@, pid) == Some(
            if has_suffix(pid, "_noCrop"@) {
                "no_crop"@
            } else {
                "illustrative"@
            },
        ),
{
    reveal_strlit("islandora:sp_large_image_cmodel");
    reveal_strlit("islandora:manuscriptCModel");
    reveal_strlit("islandora:manuscriptPageCModel");
    reveal_strlit("islandora:sp_pdf");
    reveal_strlit("livingstone:spectralManuscriptCModel");
    reveal_strlit("livingstone:spectralManuscriptPageCModel");
    let m = "islandora:sp_large_image_cmodel"@;
    assert(m.len() != "islandora:manuscriptCModel"@.len());
    assert(m.len() != "islandora:manuscriptPageCModel"@.len());
    assert(m.len() != "islandora:sp_pdf"@.len());
    assert(m.len() != "livingstone:spectralManuscriptCModel"@.len());
    assert(m.len() != "livingstone:spectralManuscriptPageCModel"@.len());
}

} // verus!
