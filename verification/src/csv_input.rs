//! The rows of a CSV export, read with `csv`.
use vstd::prelude::*;

verus! {

#[verifier::external_type_specification]
#[verifier::external_body]
pub struct ExCsvError(csv::Error);

/// The records, each as its fields, that a `csv` reader built with the given delimiter,
/// flexibility and header setting reads from `input`; `None` where a record fails to read.
pub uninterp spec fn csv_records(input: Seq<u8>, delimiter: u8, flexible: bool, has_headers: bool) -> Option<Seq<Seq<Seq<char>>>>;

/// Reads every record of `input` with a `csv::Reader` that `csv::ReaderBuilder` configures
/// with the given delimiter, flexibility and header setting. Trusted: the records, as lists
/// of fields, are `csv_records(input, ..)`, and an error comes back exactly where that is
/// `None`.
#[verifier::external_body]
pub(crate) fn read_records(input: &[u8], delimiter: u8, flexible: bool, has_headers: bool) -> (res: Result<Vec<Vec<String>>, csv::Error>)
    ensures
        match res {
            Ok(rows) => csv_records(input@, delimiter, flexible, has_headers) == Some(rows.deep_view()),
            Err(_) => csv_records(input@, delimiter, flexible, has_headers) is None,
        },
{
    let mut reader = csv::ReaderBuilder::new()
        .delimiter(delimiter)
        .flexible(flexible)
        .has_headers(has_headers)
        .from_reader(input);
    reader.records().map(|r| r.map(|rec| rec.iter().map(|f| f.to_string()).collect())).collect()
}

} // verus!
