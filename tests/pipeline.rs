use fedora_sql::error::ParseError;
use fedora_sql::record::{Datastream, Object};
use fedora_sql::response::{generate_sql, parse_response, render_sql};

const OBJECTS_HEAD: &str = "\nTRUNCATE TABLE livingstone_fedora_local_objects;\nINSERT INTO livingstone_fedora_local_objects (pid, content_model, private, type, md5)\nVALUES\n";
const DATASTREAMS_HEAD: &str = "\nTRUNCATE TABLE livingstone_fedora_local_datastreams;\nINSERT INTO livingstone_fedora_local_datastreams (pid, dsid, md5)\nVALUES\n";

fn field(name: &str, value: &str) -> String {
    format!("<str name=\"{}\">{}</str>", name, value)
}

fn doc_with(pid: &str, model: &str, extra: &str) -> String {
    format!(
        "<doc>\n  {}\n  {}\n  <bool name=\"hidden_b\">false</bool>\n  {}\n  {}\n</doc>",
        field("PID", pid),
        field("checksum_s", "abc123"),
        field("RELS_EXT_hasModel_uri_s", &format!("info:fedora/{}", model)),
        extra
    )
}

fn response(docs: &str) -> String {
    format!(
        "<?xml version=\"1.0\" encoding=\"UTF-8\"?>\n<response>\n<lst name=\"responseHeader\"><int name=\"status\">0</int></lst>\n<result name=\"response\" numFound=\"1\" start=\"0\">\n{}\n</result>\n</response>\n",
        docs
    )
}

const OCR: &str = "<arr name=\"fedora_datastream_latest_OCR_MD5_ms\">\n    <str>def456</str>\n  </arr>";

#[test]
fn end_to_end_manuscript() {
    let xml = response(&doc_with("obj:1", "islandora:manuscriptCModel", OCR));
    let (objects, datastreams) = parse_response(&xml).ok().unwrap();
    assert_eq!(objects.len(), 1);
    assert_eq!(objects[0].pid, "obj:1");
    assert_eq!(objects[0].content_model, "islandora:manuscriptCModel");
    assert!(!objects[0].private);
    assert_eq!(objects[0].md5, "abc123");
    assert_eq!(
        objects[0].to_string().ok().unwrap(),
        "('obj:1', 'islandora:manuscriptCModel', 0, 'manuscript', 'abc123')"
    );
    assert_eq!(datastreams.len(), 1);
    assert_eq!(datastreams[0].pid, "obj:1");
    assert_eq!(datastreams[0].dsid, "OCR");
    assert_eq!(datastreams[0].md5, "def456");
    assert_eq!(datastreams[0].to_string(), "('obj:1', 'OCR', 'def456')");
    let sql = generate_sql(&xml).ok().unwrap();
    let expected = format!(
        "{}('obj:1', 'islandora:manuscriptCModel', 0, 'manuscript', 'abc123');\n\n{}('obj:1', 'OCR', 'def456');\n\n",
        OBJECTS_HEAD, DATASTREAMS_HEAD
    );
    assert_eq!(sql, expected);
}

#[test]
fn end_to_end_large_image_no_crop() {
    let xml = response(&doc_with("obj:1_noCrop", "islandora:sp_large_image_cmodel", OCR));
    let (objects, _) = parse_response(&xml).ok().unwrap();
    assert_eq!(objects[0].type_label().ok().unwrap(), "no_crop");
}

#[test]
fn end_to_end_large_image_illustrative() {
    let xml = response(&doc_with("obj:1", "islandora:sp_large_image_cmodel", OCR));
    let (objects, _) = parse_response(&xml).ok().unwrap();
    assert_eq!(objects[0].type_label().ok().unwrap(), "illustrative");
}

#[test]
fn no_doc_yields_empty_blocks() {
    let xml = response("");
    let (objects, datastreams) = parse_response(&xml).ok().unwrap();
    assert!(objects.is_empty());
    assert!(datastreams.is_empty());
    let sql = generate_sql(&xml).ok().unwrap();
    assert_eq!(sql, format!("{};\n\n{};\n\n", OBJECTS_HEAD, DATASTREAMS_HEAD));
}

#[test]
fn empty_collections_render_fixed_statements() {
    let sql = render_sql(&Vec::new(), &Vec::new()).ok().unwrap();
    assert_eq!(
        Object::sql(&Vec::new()).ok().unwrap(),
        "\nTRUNCATE TABLE livingstone_fedora_local_objects;\nINSERT INTO livingstone_fedora_local_objects (pid, content_model, private, type, md5)\nVALUES\n;\n\n"
    );
    assert_eq!(
        Datastream::sql(&Vec::new()),
        "\nTRUNCATE TABLE livingstone_fedora_local_datastreams;\nINSERT INTO livingstone_fedora_local_datastreams (pid, dsid, md5)\nVALUES\n;\n\n"
    );
    assert!(!sql.contains(",\n;"));
}

#[test]
fn empty_input_is_no_record() {
    let (objects, datastreams) = parse_response("").ok().unwrap();
    assert!(objects.is_empty() && datastreams.is_empty());
}

#[test]
fn scalar_doc_yields_one_object_no_datastream() {
    let xml = response(&doc_with("obj:2", "islandora:sp_pdf", ""));
    let (objects, datastreams) = parse_response(&xml).ok().unwrap();
    assert_eq!(objects.len(), 1);
    assert!(datastreams.is_empty());
}

#[test]
fn distinct_dsids_yield_one_datastream_each() {
    let extra = "<arr name=\"fedora_datastream_latest_OCR_MD5_ms\"><str>a1</str></arr>\
                 <arr name=\"fedora_datastream_latest_DC_MD5_ms\"><str>b2</str></arr>\
                 <arr name=\"fedora_datastream_latest_TN_MD5_ms\"><str>c3</str></arr>";
    let xml = response(&doc_with("obj:3", "islandora:manuscriptPageCModel", extra));
    let (objects, datastreams) = parse_response(&xml).ok().unwrap();
    assert_eq!(objects.len(), 1);
    assert_eq!(datastreams.len(), 3);
    let dsids: Vec<&str> = datastreams.iter().map(|d| d.dsid.as_str()).collect();
    assert_eq!(dsids, vec!["OCR", "DC", "TN"]);
    assert!(datastreams.iter().all(|d| d.pid == "obj:3"));
}

#[test]
fn repeated_dsid_keeps_last_value() {
    let extra = "<arr name=\"fedora_datastream_latest_OCR_MD5_ms\"><str>first</str></arr>\
                 <arr name=\"fedora_datastream_latest_DC_MD5_ms\"><str>dc</str></arr>\
                 <arr name=\"fedora_datastream_latest_OCR_MD5_ms\"><str>second</str></arr>";
    let xml = response(&doc_with("obj:4", "islandora:manuscriptCModel", extra));
    for _ in 0..2 {
        let (_, datastreams) = parse_response(&xml).ok().unwrap();
        assert_eq!(datastreams.len(), 2);
        assert_eq!(datastreams[0].dsid, "OCR");
        assert_eq!(datastreams[0].md5, "second");
        assert_eq!(datastreams[1].md5, "dc");
    }
}

#[test]
fn extra_fragments_are_passed_over() {
    let extra = "<arr name=\"fedora_datastream_latest_OCR_MD5_ms\">\n <str> </str><str>one</str><str>two</str></arr>";
    let xml = response(&doc_with("obj:5", "islandora:manuscriptCModel", extra));
    let (_, datastreams) = parse_response(&xml).ok().unwrap();
    assert_eq!(datastreams.len(), 1);
    assert_eq!(datastreams[0].md5, "one");
}

#[test]
fn several_docs_keep_document_order() {
    let docs = format!(
        "{}{}",
        doc_with("obj:a", "islandora:manuscriptCModel", OCR),
        doc_with("obj:b", "livingstone:spectralManuscriptCModel", "")
    );
    let xml = response(&docs);
    let (objects, datastreams) = parse_response(&xml).ok().unwrap();
    assert_eq!(objects.len(), 2);
    assert_eq!(objects[0].pid, "obj:a");
    assert_eq!(objects[1].pid, "obj:b");
    assert_eq!(datastreams.len(), 1);
    let sql = generate_sql(&xml).ok().unwrap();
    assert!(sql.contains("('obj:a', 'islandora:manuscriptCModel', 0, 'manuscript', 'abc123'),\n('obj:b', 'livingstone:spectralManuscriptCModel', 0, 'spectral_manuscript', 'abc123');"));
}

#[test]
fn hidden_true_renders_one() {
    let doc = "<doc><str name=\"PID\">p</str><str name=\"checksum_s\">m</str><bool name=\"hidden_b\">true</bool><str name=\"RELS_EXT_hasModel_uri_s\">info:fedora/islandora:sp_pdf</str></doc>";
    let (objects, _) = parse_response(&response(doc)).ok().unwrap();
    assert!(objects[0].private);
    assert_eq!(
        objects[0].to_string().ok().unwrap(),
        "('p', 'islandora:sp_pdf', 1, 'manuscript_additional_pdf', 'm')"
    );
}

#[test]
fn escaped_text_is_unescaped() {
    let doc = "<doc><str name=\"PID\">a&amp;b</str><str name=\"checksum_s\">m</str><bool name=\"hidden_b\">false</bool><str name=\"RELS_EXT_hasModel_uri_s\">info:fedora/islandora:sp_pdf</str></doc>";
    let (objects, _) = parse_response(&response(doc)).ok().unwrap();
    assert_eq!(objects[0].pid, "a&b");
}

#[test]
fn missing_pid_fails() {
    let doc = "<doc><str name=\"checksum_s\">m</str><bool name=\"hidden_b\">false</bool><str name=\"RELS_EXT_hasModel_uri_s\">info:fedora/islandora:sp_pdf</str></doc>";
    assert_eq!(parse_response(&response(doc)).err(), Some(ParseError::MissingField));
    assert_eq!(generate_sql(&response(doc)).err(), Some(ParseError::MissingField));
}

#[test]
fn missing_each_required_field_fails() {
    let all = [
        field("PID", "p"),
        field("checksum_s", "m"),
        "<bool name=\"hidden_b\">false</bool>".to_string(),
        field("RELS_EXT_hasModel_uri_s", "info:fedora/islandora:sp_pdf"),
    ];
    for skip in 0..4 {
        let body: String = all
            .iter()
            .enumerate()
            .filter(|(i, _)| *i != skip)
            .map(|(_, f)| f.clone())
            .collect();
        let xml = response(&format!("<doc>{}</doc>", body));
        assert_eq!(parse_response(&xml).err(), Some(ParseError::MissingField));
    }
}

#[test]
fn unnamed_field_fails() {
    let doc = "<doc><str>loose</str></doc>";
    assert_eq!(parse_response(&response(doc)).err(), Some(ParseError::MissingName));
}

#[test]
fn bad_boolean_fails() {
    let doc = doc_with("p", "islandora:sp_pdf", "<bool name=\"hidden_b\">yes</bool>");
    assert_eq!(parse_response(&response(&doc)).err(), Some(ParseError::InvalidBoolean));
}

#[test]
fn model_without_prefix_fails() {
    let doc = "<doc><str name=\"RELS_EXT_hasModel_uri_s\">islandora:sp_pdf</str></doc>";
    assert_eq!(parse_response(&response(doc)).err(), Some(ParseError::NamingViolation));
}

#[test]
fn datastream_name_without_prefix_fails() {
    let doc = doc_with("p", "islandora:sp_pdf", "<arr name=\"other_OCR_MD5_ms\"><str>x</str></arr>");
    assert_eq!(parse_response(&response(&doc)).err(), Some(ParseError::NamingViolation));
}

#[test]
fn datastream_name_without_full_suffix_fails() {
    let doc = doc_with("p", "islandora:sp_pdf", "<arr name=\"fedora_datastream_latest_XMD5_ms\"><str>x</str></arr>");
    assert_eq!(parse_response(&response(&doc)).err(), Some(ParseError::NamingViolation));
}

#[test]
fn unknown_content_model_fails_sql_only() {
    let xml = response(&doc_with("p", "islandora:bookCModel", ""));
    let (objects, _) = parse_response(&xml).ok().unwrap();
    assert_eq!(objects[0].type_label().err(), Some(ParseError::UnknownContentModel));
    assert_eq!(generate_sql(&xml).err(), Some(ParseError::UnknownContentModel));
}

#[test]
fn truncated_value_fails() {
    let xml = "<response><doc><str name=\"PID\">";
    assert_eq!(parse_response(xml).err(), Some(ParseError::Malformed));
}

#[test]
fn truncated_fragment_fails() {
    let xml = "<response><doc><arr name=\"fedora_datastream_latest_OCR_MD5_ms\">";
    assert_eq!(parse_response(xml).err(), Some(ParseError::Malformed));
}

#[test]
fn mismatched_tags_fail() {
    let xml = "<response><doc></response>";
    assert_eq!(parse_response(xml).err(), Some(ParseError::Malformed));
}

#[test]
fn end_of_input_inside_doc_fails() {
    let xml = "<doc><str name=\"PID\">p</str><str name=\"checksum_s\">m</str><bool name=\"hidden_b\">false</bool><str name=\"RELS_EXT_hasModel_uri_s\">info:fedora/islandora:sp_pdf</str>";
    assert_eq!(parse_response(xml).err(), Some(ParseError::Malformed));
    let xml = "<response><doc><str name='PID'>obj:1</str><str name='checksum_s'>abc123</str><bool name='hidden_b'>false</bool><str name='RELS_EXT_hasModel_uri_s'>info:fedora/islandora:sp_pdf</str>";
    assert!(parse_response(xml).is_err());
}

#[test]
fn multi_valued_ignored_field_is_ignored() {
    let plain = response(&doc_with("p", "islandora:sp_pdf", ""));
    let extra = response(&doc_with(
        "p",
        "islandora:sp_pdf",
        "<arr name=\"dc.subject\"><str>a</str><str>b</str></arr><null name=\"empty_s\"/>",
    ));
    let (o1, d1) = parse_response(&plain).ok().unwrap();
    let (o2, d2) = parse_response(&extra).ok().unwrap();
    assert_eq!(o1.len(), 1);
    assert_eq!(o2.len(), 1);
    assert_eq!(o1[0].pid, o2[0].pid);
    assert_eq!(d1.len(), d2.len());
}

#[test]
fn nameless_field_after_datastream_fails() {
    let extra = "<arr name=\"fedora_datastream_latest_OCR_MD5_ms\"><str>v</str></arr><str>loose</str>";
    let xml = response(&doc_with("p", "islandora:sp_pdf", extra));
    assert_eq!(parse_response(&xml).err(), Some(ParseError::MissingName));
}

#[test]
fn ignored_fields_and_comments_are_skipped() {
    let extra = "<!-- note --><str name=\"dc.title\">Title</str><![CDATA[x]]><int name=\"count_i\">4</int>";
    let xml = response(&doc_with("p", "islandora:sp_pdf", extra));
    let (objects, datastreams) = parse_response(&xml).ok().unwrap();
    assert_eq!(objects.len(), 1);
    assert!(datastreams.is_empty());
}
