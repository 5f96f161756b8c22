use fedora_sql::assembler::{route_field, DocBuilder, FieldKind};
use fedora_sql::error::ParseError;
use fedora_sql::event::{get_attribute, read_events, Attr, XmlEvent};
use fedora_sql::record::{Datastream, Object};
use fedora_sql::remote::{push_decimal, remote_sql, RemoteDatastream, RemoteObject};
use fedora_sql::response::{events_sql, parse_events};
use fedora_sql::text::{blank, ends_with, parse_bool, str_eq, strip_prefix, strip_suffix};

fn object(pid: &str, model: &str) -> Object {
    Object::new(pid.to_string(), model.to_string(), false, "m".to_string())
}

#[test]
fn classifier_table() {
    let cases = [
        ("islandora:manuscriptCModel", "p", "manuscript"),
        ("islandora:manuscriptPageCModel", "p", "manuscript_page"),
        ("islandora:sp_pdf", "p", "manuscript_additional_pdf"),
        ("livingstone:spectralManuscriptCModel", "p", "spectral_manuscript"),
        ("livingstone:spectralManuscriptPageCModel", "p", "spectral_manuscript_page"),
        ("islandora:sp_large_image_cmodel", "p_noCrop", "no_crop"),
        ("islandora:sp_large_image_cmodel", "p_noCropX", "illustrative"),
        ("islandora:sp_large_image_cmodel", "p", "illustrative"),
    ];
    for (model, pid, label) in cases {
        assert_eq!(object(pid, model).type_label().ok().unwrap(), label);
    }
    assert_eq!(object("p", "").type_label().err(), Some(ParseError::UnknownContentModel));
    assert_eq!(
        object("p", "islandora:manuscriptcmodel").type_label().err(),
        Some(ParseError::UnknownContentModel)
    );
}

#[test]
fn object_rows_are_joined() {
    let items = vec![object("a", "islandora:sp_pdf"), object("b", "islandora:sp_pdf")];
    assert_eq!(
        Object::rows(&items).ok().unwrap(),
        "('a', 'islandora:sp_pdf', 0, 'manuscript_additional_pdf', 'm'),\n('b', 'islandora:sp_pdf', 0, 'manuscript_additional_pdf', 'm')"
    );
    let bad = vec![object("a", "islandora:sp_pdf"), object("b", "x")];
    assert_eq!(Object::sql(&bad).err(), Some(ParseError::UnknownContentModel));
}

#[test]
fn datastream_rows_are_joined() {
    let items = vec![
        Datastream::new("a".to_string(), "OCR".to_string(), "1".to_string()),
        Datastream::new("a".to_string(), "DC".to_string(), "2".to_string()),
    ];
    assert_eq!(Datastream::rows(&items), "('a', 'OCR', '1'),\n('a', 'DC', '2')");
    assert!(Datastream::sql(&items).ends_with("VALUES\n('a', 'OCR', '1'),\n('a', 'DC', '2');\n\n"));
}

#[test]
fn routing_of_field_names() {
    assert_eq!(route_field("PID").ok().unwrap().0, FieldKind::Pid);
    assert_eq!(route_field("checksum_s").ok().unwrap().0, FieldKind::Md5);
    assert_eq!(route_field("hidden_b").ok().unwrap().0, FieldKind::Hidden);
    assert_eq!(route_field("RELS_EXT_hasModel_uri_s").ok().unwrap().0, FieldKind::Model);
    let (k, d) = route_field("fedora_datastream_latest_DC_MD5_ms").ok().unwrap();
    assert_eq!(k, FieldKind::Datastream);
    assert_eq!(d, "DC");
    let (k, d) = route_field("fedora_datastream_latest__MD5_ms").ok().unwrap();
    assert_eq!(k, FieldKind::Datastream);
    assert_eq!(d, "");
    assert_eq!(route_field("dc.title").ok().unwrap().0, FieldKind::Ignored);
    assert_eq!(route_field("fedora_datastream_latest_MD5_ms").err(), Some(ParseError::NamingViolation));
}

#[test]
fn builder_finishes_with_all_fields() {
    let mut b = DocBuilder::new();
    assert!(b.absorb(FieldKind::Pid, String::new(), "p".to_string()).is_ok());
    assert!(b.absorb(FieldKind::Md5, String::new(), "m".to_string()).is_ok());
    assert!(b.absorb(FieldKind::Hidden, String::new(), "true".to_string()).is_ok());
    assert!(b.absorb(FieldKind::Model, String::new(), "info:fedora/x:y".to_string()).is_ok());
    assert!(b.absorb(FieldKind::Datastream, "OCR".to_string(), "1".to_string()).is_ok());
    assert!(b.absorb(FieldKind::Datastream, "OCR".to_string(), "2".to_string()).is_ok());
    assert_eq!(
        b.absorb(FieldKind::Hidden, String::new(), "True".to_string()).err(),
        Some(ParseError::InvalidBoolean)
    );
    let (o, ds) = b.finish().ok().unwrap();
    assert_eq!(o.content_model, "x:y");
    assert!(o.private);
    assert_eq!(ds.len(), 1);
    assert_eq!(ds[0].md5, "2");
    assert_eq!(DocBuilder::new().finish().err(), Some(ParseError::MissingField));
}

#[test]
fn text_helpers() {
    assert!(blank(""));
    assert!(blank(" \n\t\u{a0}\u{3000}"));
    assert!(!blank(" x "));
    assert!(str_eq("ab", "ab"));
    assert!(!str_eq("ab", "abc"));
    assert!(ends_with("obj_noCrop", "_noCrop"));
    assert!(!ends_with("Crop", "_noCrop"));
    assert_eq!(strip_prefix("info:fedora/a", "info:fedora/"), Some("a".to_string()));
    assert_eq!(strip_prefix("info:a", "info:fedora/"), None);
    assert_eq!(strip_suffix("OCR_MD5_ms", "_MD5_ms"), Some("OCR".to_string()));
    assert_eq!(parse_bool("true"), Some(true));
    assert_eq!(parse_bool("false"), Some(false));
    assert_eq!(parse_bool(" true"), None);
}

#[test]
fn first_readable_name_attribute() {
    let attrs = vec![
        None,
        Some(Attr { key: "id".to_string(), value: "1".to_string() }),
        Some(Attr { key: "name".to_string(), value: "PID".to_string() }),
        Some(Attr { key: "name".to_string(), value: "other".to_string() }),
    ];
    assert_eq!(get_attribute(&attrs, "name"), Some("PID".to_string()));
    assert_eq!(get_attribute(&attrs, "missing"), None);
}

#[test]
fn reader_yields_events_then_eof() {
    let events = read_events("<a name=\"x\">t</a>").ok().unwrap();
    assert_eq!(events.len(), 5);
    assert!(matches!(&events[0], XmlEvent::Text { text } if text.is_empty()));
    match &events[1] {
        XmlEvent::Open { name, local_name, attributes, empty } => {
            assert!(!empty);
            assert_eq!(name, "a");
            assert_eq!(local_name, "a");
            assert_eq!(get_attribute(attributes, "name"), Some("x".to_string()));
        }
        _ => panic!("expected an open tag"),
    }
    assert!(matches!(&events[2], XmlEvent::Text { text } if text == "t"));
    assert!(matches!(&events[3], XmlEvent::Close { name } if name == "a"));
    assert!(matches!(events[4], XmlEvent::Eof));
    let events = read_events("<ns:str/>").ok().unwrap();
    assert!(matches!(&events[1], XmlEvent::Open { local_name, empty: true, .. } if local_name == "str"));
    assert_eq!(read_events("<a>&bogus;</a>").err(), Some(ParseError::Malformed));
    assert_eq!(read_events("<a></b>").err(), Some(ParseError::Malformed));
}

fn open(name: &str, field: Option<&str>) -> XmlEvent {
    XmlEvent::Open {
        name: name.to_string(),
        local_name: name.to_string(),
        attributes: field
            .map(|f| vec![Some(Attr { key: "name".to_string(), value: f.to_string() })])
            .unwrap_or_default(),
        empty: false,
    }
}

fn text(t: &str) -> XmlEvent {
    XmlEvent::Text { text: t.to_string() }
}

fn close(name: &str) -> XmlEvent {
    XmlEvent::Close { name: name.to_string() }
}

#[test]
fn events_without_end_marker() {
    let events = vec![
        open("doc", None),
        open("str", Some("PID")),
        text("p"),
        close("str"),
        open("str", Some("checksum_s")),
        text("m"),
        close("str"),
        open("bool", Some("hidden_b")),
        text("false"),
        close("bool"),
        open("str", Some("RELS_EXT_hasModel_uri_s")),
        text("info:fedora/islandora:sp_pdf"),
        close("str"),
        close("doc"),
    ];
    let (objects, datastreams) = parse_events(&events).ok().unwrap();
    assert_eq!(objects.len(), 1);
    assert!(datastreams.is_empty());
    let sql = events_sql(&events).ok().unwrap();
    assert!(sql.contains("('p', 'islandora:sp_pdf', 0, 'manuscript_additional_pdf', 'm');"));
    assert!(parse_events(&Vec::new()).ok().unwrap().0.is_empty());
}

#[test]
fn remote_rows_render() {
    let o = RemoteObject {
        pid: "a:1".to_string(),
        content_model: "islandora:sp_pdf".to_string(),
        private: 120,
        object_type: "manuscript".to_string(),
        md5: "m".to_string(),
    };
    assert_eq!(o.to_string(), "('a:1', 'islandora:sp_pdf', 120, 'manuscript', 'm')");
    let d = RemoteDatastream {
        pid: "a:1".to_string(),
        dsid: "OBJ".to_string(),
        md5: "m".to_string(),
        file: "a.tif".to_string(),
    };
    assert_eq!(d.to_string(), "('a:1', 'OBJ', 'm', 'a.tif')");
    let sql = remote_sql(&vec![o], &vec![d]);
    assert_eq!(
        sql,
        "\nTRUNCATE TABLE livingstone_fedora_remote_objects;\nINSERT INTO livingstone_fedora_remote_objects (pid, content_model, private, type, md5)\nVALUES\n('a:1', 'islandora:sp_pdf', 120, 'manuscript', 'm');\n\n\nTRUNCATE TABLE livingstone_fedora_remote_datastreams;\nINSERT INTO livingstone_fedora_remote_datastreams (pid, dsid, md5, file)\nVALUES\n('a:1', 'OBJ', 'm', 'a.tif');\n\n"
    );
    assert_eq!(
        remote_sql(&Vec::new(), &Vec::new()),
        "\nTRUNCATE TABLE livingstone_fedora_remote_objects;\nINSERT INTO livingstone_fedora_remote_objects (pid, content_model, private, type, md5)\nVALUES\n;\n\n\nTRUNCATE TABLE livingstone_fedora_remote_datastreams;\nINSERT INTO livingstone_fedora_remote_datastreams (pid, dsid, md5, file)\nVALUES\n;\n\n"
    );
}

#[test]
fn decimal_numerals() {
    for (n, s) in [(0u32, "0"), (7, "7"), (10, "10"), (4294967295, "4294967295")] {
        let mut out = String::from("x");
        push_decimal(&mut out, n);
        assert_eq!(out, format!("x{}", s));
    }
}
