//! The integrity ledger: one record per successfully written entry, in write
//! order, serialized once at finalize time as the `RECORD` file.
use vstd::prelude::*;
use vstd::string::StringExecFns;
use crate::strutil::dec_chars;
use crate::strutil::usize_to_dec_string;

verus! {

/// One ledger record: the path as written into the archive, the content hash
/// rendered as unpadded URL-safe base64 of the SHA-256 digest, and the
/// content's byte length.
pub struct RecordEntry {
    pub path: String,
    pub hash: String,
    pub len: usize,
}

/// One serialized ledger line: `path,sha256=<hash>,<length>` and a newline.
pub open spec fn record_line_chars(path: Seq<char>, hash: Seq<char>, len: int) -> Seq<char> {
    path + ",sha256="@ + hash + ","@ + dec_chars(len) + "\n"@
}

/// The serialized lines of the given records, in order.
pub open spec fn record_lines_chars(records: Seq<RecordEntry>) -> Seq<char>
    decreases records.len(),
{
    if records.len() == 0 {
        Seq::empty()
    } else {
        record_lines_chars(records.drop_last()) + record_line_chars(
            records.last().path@,
            records.last().hash@,
            records.last().len as int,
        )
    }
}

/// The full `RECORD` file: every record's line in write order, then a line for
/// the record file itself with empty hash and length fields — it cannot hash
/// itself.
pub open spec fn record_file_chars(records: Seq<RecordEntry>, self_path: Seq<char>) -> Seq<char> {
    record_lines_chars(records) + self_path + ",,\n"@
}

/// Serializes the ledger as the `RECORD` file format states it.
pub fn render_record(records: &Vec<RecordEntry>, self_path: &str) -> (r: String)
    ensures
        r@ == record_file_chars(records@, self_path@),
{
    let mut out = String::new();
    let mut i: usize = 0;
    while i < records.len()
        invariant
            i <= records@.len(),
            out@ == record_lines_chars(records@.take(i as int)),
        decreases records@.len() - i,
    {
        let entry = &records[i];
        out.append(entry.path.as_str());
        out.append(",sha256=");
        out.append(entry.hash.as_str());
        out.append(",");
        let len_str = usize_to_dec_string(entry.len);
        out.append(len_str.as_str());
        out.append("\n");
        proof {
            let taken = records@.take(i + 1);
            assert(taken.drop_last() =~= records@.take(i as int));
            assert(taken.last() == records@[i as int]);
            assert(out@ =~= record_lines_chars(records@.take(i as int)) + record_line_chars(
                records@[i as int].path@,
                records@[i as int].hash@,
                records@[i as int].len as int,
            ));
        }
        i = i + 1;
    }
    proof {
        assert(records@.take(records@.len() as int) =~= records@);
    }
    out.append(self_path);
    out.append(",,\n");
    proof {
        assert(out@ =~= record_file_chars(records@, self_path@));
    }
    out
}

} // verus!
