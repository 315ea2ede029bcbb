//! Splitting delimited text into records.
use vstd::prelude::*;

verus! {

/// The error type of the `csv` crate. Nothing is known of its values here.
#[verifier::external_type_specification]
#[verifier::external_body]
pub struct ExCsvError(csv::Error);

/// The records into which the `csv` reader splits a text that has no header
/// row, each record a sequence of fields; `None` where the reader reports
/// an error.
pub uninterp spec fn csv_records(text: Seq<char>) -> Option<Seq<Seq<Seq<char>>>>;

/// Reads all records of `text` with a `csv::Reader` built by
/// `csv::ReaderBuilder` with `has_headers(false)` and otherwise default
/// settings, through `Reader::records`. The fields of each record are copied
/// out as strings, in order. The reader's first error ends the reading and
/// is returned.
///
/// Believed without proof: the result depends on `text` alone, and is what
/// `csv_records` names.
#[verifier::external_body]
pub(crate) fn read_records(text: &str) -> (records: Result<Vec<Vec<String>>, csv::Error>)
    ensures
        match records {
            Ok(rows) => csv_records(text@) == Some(rows.deep_view()),
            Err(_) => csv_records(text@) is None,
        },
{
    let mut reader = csv::ReaderBuilder::new().has_headers(false).from_reader(text.as_bytes());
    let mut rows: Vec<Vec<String>> = Vec::new();
    for record in reader.records() {
        rows.push(record?.iter().map(|field| field.to_string()).collect());
    }
    Ok(rows)
}

} // verus!
