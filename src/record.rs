//! The two record kinds, the classifier of content models and the SQL
//! rendering of record collections.
use vstd::prelude::*;
use vstd::string::StringExecFns;
use crate::error::ParseError;
use crate::text::{ends_with, has_suffix, str_eq};

verus! {

pub struct ObjectV {
    pub pid: Seq<char>,
    pub content_model: Seq<char>,
    pub private: bool,
    pub md5: Seq<char>,
}

pub struct DatastreamV {
    pub pid: Seq<char>,
    pub dsid: Seq<char>,
    pub md5: Seq<char>,
}

/// One archival item.
pub struct Object {
    pub pid: String,
    pub content_model: String,
    pub private: bool,
    pub md5: String,
}

/// One named sub-asset of an archival item.
pub struct Datastream {
    pub pid: String,
    pub dsid: String,
    pub md5: String,
}

impl View for Object {
    type V = ObjectV;

    open spec fn view(&self) -> ObjectV {
        ObjectV {
            pid: self.pid@,
            content_model: self.content_model@,
            private: self.private,
            md5: self.md5@,
        }
    }
}

impl View for Datastream {
    type V = DatastreamV;

    open spec fn view(&self) -> DatastreamV {
        DatastreamV { pid: self.pid@, dsid: self.dsid@, md5: self.md5@ }
    }
}

pub open spec fn objects_view(v: Seq<Object>) -> Seq<ObjectV> {
    v.map_values(|o: Object| o@)
}

pub open spec fn datastreams_view(v: Seq<Datastream>) -> Seq<DatastreamV> {
    v.map_values(|d: Datastream| d@)
}

/// The type label of a content model; for large images it depends on the pid.
pub open spec fn label_of(content_model: Seq<char>, pid: Seq<char>) -> Option<Seq<char>> {
    if content_model == "islandora:manuscriptCModel"@ {
        Some("manuscript"@)
    } else if content_model == "islandora:manuscriptPageCModel"@ {
        Some("manuscript_page"@)
    } else if content_model == "islandora:sp_pdf"@ {
        Some("manuscript_additional_pdf"@)
    } else if content_model == "livingstone:spectralManuscriptCModel"@ {
        Some("spectral_manuscript"@)
    } else if content_model == "livingstone:spectralManuscriptPageCModel"@ {
        Some("spectral_manuscript_page"@)
    } else if content_model == "islandora:sp_large_image_cmodel"@ {
        if has_suffix(pid, "_noCrop"@) {
            Some("no_crop"@)
        } else {
            Some("illustrative"@)
        }
    } else {
        None
    }
}

pub open spec fn is_labelled(o: ObjectV) -> bool {
    label_of(o.content_model, o.pid).is_some()
}

pub open spec fn all_labelled(objs: Seq<ObjectV>) -> bool {
    forall|i: int| 0 <= i < objs.len() ==> is_labelled(#[trigger] objs[i])
}

pub open spec fn object_row(o: ObjectV) -> Seq<char> {
    let label = match label_of(o.content_model, o.pid) {
        Some(l) => l,
        None => Seq::empty(),
    };
    "('"@ + o.pid + "', '"@ + o.content_model + "', "@ + (if o.private {
        "1"@
    } else {
        "0"@
    }) + ", '"@ + label + "', '"@ + o.md5 + "')"@
}

pub open spec fn datastream_row(d: DatastreamV) -> Seq<char> {
    "('"@ + d.pid + "', '"@ + d.dsid + "', '"@ + d.md5 + "')"@
}

/// The rows joined by a comma and a line break.
pub open spec fn join_rows(rows: Seq<Seq<char>>) -> Seq<char>
    decreases rows.len(),
{
    if rows.len() == 0 {
        Seq::empty()
    } else if rows.len() == 1 {
        rows[0]
    } else {
        join_rows(rows.drop_last()) + ",\n"@ + rows.last()
    }
}

pub open spec fn object_rows(objs: Seq<ObjectV>) -> Seq<char> {
    join_rows(objs.map_values(|o: ObjectV| object_row(o)))
}

pub open spec fn datastream_rows(ds: Seq<DatastreamV>) -> Seq<char> {
    join_rows(ds.map_values(|d: DatastreamV| datastream_row(d)))
}

pub open spec fn objects_sql(objs: Seq<ObjectV>) -> Seq<char> {
    "\nTRUNCATE TABLE livingstone_fedora_local_objects;\nINSERT INTO livingstone_fedora_local_objects (pid, content_model, private, type, md5)\nVALUES\n"@
        + object_rows(objs) + ";\n\n"@
}

pub open spec fn datastreams_sql(ds: Seq<DatastreamV>) -> Seq<char> {
    "\nTRUNCATE TABLE livingstone_fedora_local_datastreams;\nINSERT INTO livingstone_fedora_local_datastreams (pid, dsid, md5)\nVALUES\n"@
        + datastream_rows(ds) + ";\n\n"@
}

/// Joining one row more adds a separator and the row, unless it is the first.
pub proof fn lemma_join_push(rows: Seq<Seq<char>>, row: Seq<char>)
    ensures
        join_rows(rows.push(row)) == if rows.len() == 0 {
            row
        } else {
            join_rows(rows) + ",\n"@ + row
        },
{
    assert(rows.push(row).drop_last() =~= rows);
}

impl Object {
    pub fn new(pid: String, content_model: String, private: bool, md5: String) -> (r: Self)
        ensures
            r.pid == pid,
            r.content_model == content_model,
            r.private == private,
            r.md5 == md5,
    {
        Object { pid, content_model, private, md5 }
    }

    /// The type label that the content model (and, for large images, the pid) selects.
    pub fn type_label(&self) -> (r: Result<&'static str, ParseError>)
        ensures
            match label_of(self.content_model@, self.pid@) {
                Some(l) => r matches Ok(s) && s@ == l,
                None => r == Err::<&'static str, ParseError>(ParseError::UnknownContentModel),
            },
    {
        let m = self.content_model.as_str();
        if str_eq(m, "islandora:manuscriptCModel") {
            Ok("manuscript")
        } else if str_eq(m, "islandora:manuscriptPageCModel") {
            Ok("manuscript_page")
        } else if str_eq(m, "islandora:sp_pdf") {
            Ok("manuscript_additional_pdf")
        } else if str_eq(m, "livingstone:spectralManuscriptCModel") {
            Ok("spectral_manuscript")
        } else if str_eq(m, "livingstone:spectralManuscriptPageCModel") {
            Ok("spectral_manuscript_page")
        } else if str_eq(m, "islandora:sp_large_image_cmodel") {
            if ends_with(self.pid.as_str(), "_noCrop") {
                Ok("no_crop")
            } else {
                Ok("illustrative")
            }
        } else {
            Err(ParseError::UnknownContentModel)
        }
    }

    /// The parenthesised SQL value tuple of this object.
    pub fn to_string(&self) -> (r: Result<String, ParseError>)
        ensures
            is_labelled(self@) ==> (r matches Ok(s) && s@ == object_row(self@)),
            !is_labelled(self@) ==> r == Err::<String, ParseError>(
                ParseError::UnknownContentModel,
            ),
    {
        let label = match self.type_label() {
            Ok(l) => l,
            Err(e) => return Err(e),
        };
        let mut s = String::from_str("('");
        s.append(self.pid.as_str());
        s.append("', '");
        s.append(self.content_model.as_str());
        s.append("', ");
        s.append(if self.private { "1" } else { "0" });
        s.append(", '");
        s.append(label);
        s.append("', '");
        s.append(self.md5.as_str());
        s.append("')");
        Ok(s)
    }

    /// The value tuples of all objects, in order, one per line.
    pub fn rows(items: &Vec<Object>) -> (r: Result<String, ParseError>)
        ensures
            all_labelled(objects_view(items@)) ==> (r matches Ok(s) && s@ == object_rows(
                objects_view(items@),
            )),
            !all_labelled(objects_view(items@)) ==> r == Err::<String, ParseError>(
                ParseError::UnknownContentModel,
            ),
    {
        let ghost objs = objects_view(items@);
        let mut s = String::new();
        let mut i: usize = 0;
        while i < items.len()
            invariant
                i <= items.len(),
                objs == objects_view(items@),
                forall|j: int| 0 <= j < i ==> is_labelled(#[trigger] objs[j]),
                s@ == object_rows(objs.subrange(0, i as int)),
            decreases items.len() - i,
        {
            let row = match items[i].to_string() {
                Ok(row) => row,
                Err(e) => {
                    assert(!is_labelled(objs[i as int]));
                    return Err(e);
                },
            };
            proof {
                let rows = objs.subrange(0, i as int).map_values(|o: ObjectV| object_row(o));
                lemma_join_push(rows, row@);
                assert(objs.subrange(0, i + 1).map_values(|o: ObjectV| object_row(o))
                    =~= rows.push(row@));
            }
            if i > 0 {
                s.append(",\n");
            }
            s.append(row.as_str());
            i = i + 1;
        }
        assert(objs.subrange(0, i as int) =~= objs);
        Ok(s)
    }

    /// A statement that empties the local objects table and one that inserts every object.
    pub fn sql(items: &Vec<Object>) -> (r: Result<String, ParseError>)
        ensures
            all_labelled(objects_view(items@)) ==> (r matches Ok(s) && s@ == objects_sql(
                objects_view(items@),
            )),
            !all_labelled(objects_view(items@)) ==> r == Err::<String, ParseError>(
                ParseError::UnknownContentModel,
            ),
    {
        let rows = Object::rows(items)?;
        let mut s = String::from_str(
            "\nTRUNCATE TABLE livingstone_fedora_local_objects;\nINSERT INTO livingstone_fedora_local_objects (pid, content_model, private, type, md5)\nVALUES\n",
        );
        s.append(rows.as_str());
        s.append(";\n\n");
        Ok(s)
    }
}

impl Datastream {
    pub fn new(pid: String, dsid: String, md5: String) -> (r: Self)
        ensures
            r.pid == pid,
            r.dsid == dsid,
            r.md5 == md5,
    {
        Datastream { pid, dsid, md5 }
    }

    /// The parenthesised SQL value tuple of this datastream.
    pub fn to_string(&self) -> (r: String)
        ensures
            r@ == datastream_row(self@),
    {
        let mut s = String::from_str("('");
        s.append(self.pid.as_str());
        s.append("', '");
        s.append(self.dsid.as_str());
        s.append("', '");
        s.append(self.md5.as_str());
        s.append("')");
        s
    }

    /// The value tuples of all datastreams, in order, one per line.
    pub fn rows(items: &Vec<Datastream>) -> (r: String)
        ensures
            r@ == datastream_rows(datastreams_view(items@)),
    {
        let ghost ds = datastreams_view(items@);
        let mut s = String::new();
        let mut i: usize = 0;
        while i < items.len()
            invariant
                i <= items.len(),
                ds == datastreams_view(items@),
                s@ == datastream_rows(ds.subrange(0, i as int)),
            decreases items.len() - i,
        {
            let row = items[i].to_string();
            proof {
                let rows = ds.subrange(0, i as int).map_values(
                    |d: DatastreamV| datastream_row(d),
                );
                lemma_join_push(rows, row@);
                assert(ds.subrange(0, i + 1).map_values(|d: DatastreamV| datastream_row(d))
                    =~= rows.push(row@));
            }
            if i > 0 {
                s.append(",\n");
            }
            s.append(row.as_str());
            i = i + 1;
        }
        assert(ds.subrange(0, i as int) =~= ds);
        s
    }

    /// A statement that empties the local datastreams table and one that inserts every datastream.
    pub fn sql(items: &Vec<Datastream>) -> (r: String)
        ensures
            r@ == datastreams_sql(datastreams_view(items@)),
    {
        let rows = Datastream::rows(items);
        let mut s = String::from_str(
            "\nTRUNCATE TABLE livingstone_fedora_local_datastreams;\nINSERT INTO livingstone_fedora_local_datastreams (pid, dsid, md5)\nVALUES\n",
        );
        s.append(rows.as_str());
        s.append(";\n\n");
        s
    }
}

} // verus!
