//! SQL rendering of the records listed in the remote import files: one
//! object table and one datastream table, filled in the order of the rows.
use vstd::prelude::*;
use vstd::string::StringExecFns;
use crate::record::{join_rows, lemma_join_push};

verus! {

pub open spec fn digit(d: nat) -> Seq<char> {
    if d == 0 {
        "0"@
    } else if d == 1 {
        "1"@
    } else if d == 2 {
        "2"@
    } else if d == 3 {
        "3"@
    } else if d == 4 {
        "4"@
    } else if d == 5 {
        "5"@
    } else if d == 6 {
        "6"@
    } else if d == 7 {
        "7"@
    } else if d == 8 {
        "8"@
    } else {
        "9"@
    }
}

/// The decimal numeral of `n`, without leading zeros.
pub open spec fn decimal(n: nat) -> Seq<char>
    decreases n,
{
    if n < 10 {
        digit(n)
    } else {
        decimal(n / 10) + digit(n % 10)
    }
}

fn digit_str(d: u32) -> (r: &'static str)
    requires
        d < 10,
    ensures
        r@ == digit(d as nat),
{
    if d == 0 {
        "0"
    } else if d == 1 {
        "1"
    } else if d == 2 {
        "2"
    } else if d == 3 {
        "3"
    } else if d == 4 {
        "4"
    } else if d == 5 {
        "5"
    } else if d == 6 {
        "6"
    } else if d == 7 {
        "7"
    } else if d == 8 {
        "8"
    } else {
        "9"
    }
}

/// Appends the decimal numeral of `n`.
pub fn push_decimal(s: &mut String, n: u32)
    ensures
        final(s)@ == old(s)@ + decimal(n as nat),
    decreases n,
{
    if n >= 10 {
        push_decimal(s, n / 10);
    }
    s.append(digit_str(n % 10));
    assert(final(s)@ =~= old(s)@ + decimal(n as nat));
}

pub struct RemoteObjectV {
    pub pid: Seq<char>,
    pub content_model: Seq<char>,
    pub private: nat,
    pub object_type: Seq<char>,
    pub md5: Seq<char>,
}

pub struct RemoteDatastreamV {
    pub pid: Seq<char>,
    pub dsid: Seq<char>,
    pub md5: Seq<char>,
    pub file: Seq<char>,
}

/// A row of the remote objects file.
pub struct RemoteObject {
    pub pid: String,
    pub content_model: String,
    pub private: u32,
    pub object_type: String,
    pub md5: String,
}

/// A row of the remote datastreams file.
pub struct RemoteDatastream {
    pub pid: String,
    pub dsid: String,
    pub md5: String,
    pub file: String,
}

impl View for RemoteObject {
    type V = RemoteObjectV;

    open spec fn view(&self) -> RemoteObjectV {
        RemoteObjectV {
            pid: self.pid@,
            content_model: self.content_model@,
            private: self.private as nat,
            object_type: self.object_type@,
            md5: self.md5@,
        }
    }
}

impl View for RemoteDatastream {
    type V = RemoteDatastreamV;

    open spec fn view(&self) -> RemoteDatastreamV {
        RemoteDatastreamV { pid: self.pid@, dsid: self.dsid@, md5: self.md5@, file: self.file@ }
    }
}

pub open spec fn remote_object_row(o: RemoteObjectV) -> Seq<char> {
    "('"@ + o.pid + "', '"@ + o.content_model + "', "@ + decimal(o.private) + ", '"@
        + o.object_type + "', '"@ + o.md5 + "')"@
}

pub open spec fn remote_datastream_row(d: RemoteDatastreamV) -> Seq<char> {
    "('"@ + d.pid + "', '"@ + d.dsid + "', '"@ + d.md5 + "', '"@ + d.file + "')"@
}

pub open spec fn remote_objects_view(v: Seq<RemoteObject>) -> Seq<RemoteObjectV> {
    v.map_values(|o: RemoteObject| o@)
}

pub open spec fn remote_datastreams_view(v: Seq<RemoteDatastream>) -> Seq<RemoteDatastreamV> {
    v.map_values(|d: RemoteDatastream| d@)
}

pub open spec fn remote_objects_sql(objs: Seq<RemoteObjectV>) -> Seq<char> {
    "\nTRUNCATE TABLE livingstone_fedora_remote_objects;\nINSERT INTO livingstone_fedora_remote_objects (pid, content_model, private, type, md5)\nVALUES\n"@
        + join_rows(objs.map_values(|o: RemoteObjectV| remote_object_row(o))) + ";\n\n"@
}

pub open spec fn remote_datastreams_sql(ds: Seq<RemoteDatastreamV>) -> Seq<char> {
    "\nTRUNCATE TABLE livingstone_fedora_remote_datastreams;\nINSERT INTO livingstone_fedora_remote_datastreams (pid, dsid, md5, file)\nVALUES\n"@
        + join_rows(ds.map_values(|d: RemoteDatastreamV| remote_datastream_row(d))) + ";\n\n"@
}

impl RemoteObject {
    /// The parenthesised SQL value tuple of this row.
    pub fn to_string(&self) -> (r: String)
        ensures
            r@ == remote_object_row(self@),
    {
        let mut s = String::from_str("('");
        s.append(self.pid.as_str());
        s.append("', '");
        s.append(self.content_model.as_str());
        s.append("', ");
        push_decimal(&mut s, self.private);
        s.append(", '");
        s.append(self.object_type.as_str());
        s.append("', '");
        s.append(self.md5.as_str());
        s.append("')");
        s
    }

    /// A statement that empties the remote objects table and one that inserts every row.
    pub fn sql(items: &Vec<RemoteObject>) -> (r: String)
        ensures
            r@ == remote_objects_sql(remote_objects_view(items@)),
    {
        let ghost objs = remote_objects_view(items@);
        let mut s = String::from_str(
            "\nTRUNCATE TABLE livingstone_fedora_remote_objects;\nINSERT INTO livingstone_fedora_remote_objects (pid, content_model, private, type, md5)\nVALUES\n",
        );
        let ghost head = s@;
        let mut i: usize = 0;
        while i < items.len()
            invariant
                i <= items.len(),
                objs == remote_objects_view(items@),
                s@ == head + join_rows(
                    objs.subrange(0, i as int).map_values(|o: RemoteObjectV| remote_object_row(o)),
                ),
            decreases items.len() - i,
        {
            let row = items[i].to_string();
            proof {
                let rows = objs.subrange(0, i as int).map_values(
                    |o: RemoteObjectV| remote_object_row(o),
                );
                lemma_join_push(rows, row@);
                assert(objs.subrange(0, i + 1).map_values(|o: RemoteObjectV| remote_object_row(o))
                    =~= rows.push(row@));
            }
            if i > 0 {
                s.append(",\n");
            }
            s.append(row.as_str());
            i = i + 1;
        }
        assert(objs.subrange(0, i as int) =~= objs);
        s.append(";\n\n");
        s
    }
}

impl RemoteDatastream {
    /// The parenthesised SQL value tuple of this row.
    pub fn to_string(&self) -> (r: String)
        ensures
            r@ == remote_datastream_row(self@),
    {
        let mut s = String::from_str("('");
        s.append(self.pid.as_str());
        s.append("', '");
        s.append(self.dsid.as_str());
        s.append("', '");
        s.append(self.md5.as_str());
        s.append("', '");
        s.append(self.file.as_str());
        s.append("')");
        s
    }

    /// A statement that empties the remote datastreams table and one that inserts every row.
    pub fn sql(items: &Vec<RemoteDatastream>) -> (r: String)
        ensures
            r@ == remote_datastreams_sql(remote_datastreams_view(items@)),
    {
        let ghost ds = remote_datastreams_view(items@);
        let mut s = String::from_str(
            "\nTRUNCATE TABLE livingstone_fedora_remote_datastreams;\nINSERT INTO livingstone_fedora_remote_datastreams (pid, dsid, md5, file)\nVALUES\n",
        );
        let ghost head = s@;
        let mut i: usize = 0;
        while i < items.len()
            invariant
                i <= items.len(),
                ds == remote_datastreams_view(items@),
                s@ == head + join_rows(
                    ds.subrange(0, i as int).map_values(
                        |d: RemoteDatastreamV| remote_datastream_row(d),
                    ),
                ),
            decreases items.len() - i,
        {
            let row = items[i].to_string();
            proof {
                let rows = ds.subrange(0, i as int).map_values(
                    |d: RemoteDatastreamV| remote_datastream_row(d),
                );
                lemma_join_push(rows, row@);
                assert(ds.subrange(0, i + 1).map_values(
                    |d: RemoteDatastreamV| remote_datastream_row(d),
                ) =~= rows.push(row@));
            }
            if i > 0 {
                s.append(",\n");
            }
            s.append(row.as_str());
            i = i + 1;
        }
        assert(ds.subrange(0, i as int) =~= ds);
        s.append(";\n\n");
        s
    }
}

/// The SQL text of both remote files: the objects block, then the datastreams block.
pub fn remote_sql(objects: &Vec<RemoteObject>, datastreams: &Vec<RemoteDatastream>) -> (r: String)
    ensures
        r@ == remote_objects_sql(remote_objects_view(objects@)) + remote_datastreams_sql(
            remote_datastreams_view(datastreams@),
        ),
{
    let mut s = RemoteObject::sql(objects);
    let d = RemoteDatastream::sql(datastreams);
    s.append(d.as_str());
    s
}

} // verus!
