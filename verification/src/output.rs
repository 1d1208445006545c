//! Choice and naming of the simulation's output files.
//!
//! A run writes one snapshot file per outer step plus a counter file, all
//! inside the simulation folder. The snapshot encoding is chosen once,
//! from a name typed by the operator or given on the command line, and
//! every file name is derived from that choice and the step counter.

use vstd::prelude::*;

use crate::decimal::{dec_rep, format_usize};
use crate::text::{remove_end_characters, str_eq, trim_line_ends};

verus! {

/// Code of the CBOR snapshot encoding.
pub const CBOR: usize = 1;

/// Code of the Pickle snapshot encoding.
pub const PICKLE: usize = 2;

/// Code of the CSV snapshot encoding.
pub const CSV: usize = 3;

/// The encoding that a lowercased format name selects.
pub open spec fn format_code(lc: Seq<char>) -> Result<usize, usize> {
    if lc == "cbor"@ {
        Ok(CBOR as usize)
    } else if lc == "pickle"@ {
        Ok(PICKLE as usize)
    } else if lc == "csv"@ {
        Ok(CSV as usize)
    } else {
        Err(0)
    }
}

/// The lowercase form of a text, as Unicode defines it.
pub uninterp spec fn lower_of(s: Seq<char>) -> Seq<char>;

/// Relies on str::to_lowercase: the lowercase mapping of a text depends on
/// its characters alone.
#[verifier::external_body]
fn lowercase(s: &str) -> (r: String)
    ensures
        r@ == lower_of(s@),
{
    s.to_lowercase()
}

/// Recognize a snapshot-encoding name: trailing line ends are ignored and
/// the comparison is case-insensitive.
pub fn serialization_format_check(s: String) -> (r: Result<usize, usize>)
    ensures
        r == format_code(lower_of(trim_line_ends(s@))),
{
    let t = remove_end_characters(s);
    let lc = lowercase(t.as_str());
    if str_eq(lc.as_str(), "cbor") {
        Ok(CBOR)
    } else if str_eq(lc.as_str(), "pickle") {
        Ok(PICKLE)
    } else if str_eq(lc.as_str(), "csv") {
        Ok(CSV)
    } else {
        Err(0)
    }
}

/// The name of the single data file created inside the simulation folder
/// when a run starts, one extension per encoding. An unknown encoding
/// code names no file.
pub fn data_file_name(folder: &str, ser_fmt: usize) -> (r: Option<String>)
    ensures
        ser_fmt == CBOR ==> (r matches Some(f) && f@ == folder@ + "/data.cbor"@),
        ser_fmt == PICKLE ==> (r matches Some(f) && f@ == folder@ + "/data.pickle"@),
        ser_fmt == CSV ==> (r matches Some(f) && f@ == folder@ + "/data.csv"@),
        !(ser_fmt == CBOR || ser_fmt == PICKLE || ser_fmt == CSV) ==> r is None,
{
    if ser_fmt == CBOR {
        Some(String::from_str(folder).concat("/data.cbor"))
    } else if ser_fmt == PICKLE {
        Some(String::from_str(folder).concat("/data.pickle"))
    } else if ser_fmt == CSV {
        Some(String::from_str(folder).concat("/data.csv"))
    } else {
        None
    }
}

/// The name of the snapshot file of outer step `c`, one extension per
/// encoding. An unknown encoding code names no file.
pub fn snapshot_file_name(ser_fmt: usize, c: usize) -> (r: Option<String>)
    ensures
        ser_fmt == CBOR ==> (r matches Some(f) && f@ == "sim/data_"@ + dec_rep(c as nat)
            + ".cbor"@),
        ser_fmt == PICKLE ==> (r matches Some(f) && f@ == "sim/data_"@ + dec_rep(c as nat)
            + ".pickle"@),
        ser_fmt == CSV ==> (r matches Some(f) && f@ == "sim/data_"@ + dec_rep(c as nat)
            + ".csv"@),
        !(ser_fmt == CBOR || ser_fmt == PICKLE || ser_fmt == CSV) ==> r is None,
{
    let num = format_usize(c);
    let stem = String::from_str("sim/data_").concat(num.as_str());
    if ser_fmt == CBOR {
        Some(stem.concat(".cbor"))
    } else if ser_fmt == PICKLE {
        Some(stem.concat(".pickle"))
    } else if ser_fmt == CSV {
        Some(stem.concat(".csv"))
    } else {
        None
    }
}

/// The name of the counter file inside the simulation folder.
pub fn counter_file_name(folder: &str) -> (r: String)
    ensures
        r@ == folder@ + "/counter.txt"@,
{
    String::from_str(folder).concat("/counter.txt")
}

/// The name of the CBOR snapshot file of outer step `i`, as the post-run
/// reader rebuilds it from the simulation folder and the counter.
pub fn sim_data_file_name(folder: &str, i: usize) -> (r: String)
    ensures
        r@ == folder@ + "/data_"@ + dec_rep(i as nat) + ".cbor"@,
{
    String::from_str(folder).concat("/data_").concat(format_usize(i).as_str()).concat(".cbor")
}

} // verus!
