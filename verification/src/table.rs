//! Reading a delimited-text table: the header row and the data rows.

use vstd::prelude::*;
use crate::record::fields_of;

verus! {

/// The error type of the `csv` crate.
#[verifier::external_type_specification]
#[verifier::external_body]
pub struct ExCsvError(csv::Error);

/// The fields of the header row that `csv::Reader::headers` yields for a
/// reader over `data`; `None` where it yields an error.
pub uninterp spec fn csv_header(data: Seq<u8>) -> Option<Seq<Seq<char>>>;

/// The data rows that `csv::Reader::records` yields for a reader over
/// `data`, in order: the fields of each row, or `None` for a row that it
/// yields as an error.
pub uninterp spec fn csv_rows(data: Seq<u8>) -> Seq<Option<Seq<Seq<char>>>>;

/// The fields of a row that was read, `None` for one that was not.
pub open spec fn row_fields(row: Result<Vec<String>, csv::Error>) -> Option<Seq<Seq<char>>> {
    match row {
        Ok(fields) => Some(fields_of(fields@)),
        Err(_) => None,
    }
}

/// Calls `csv::Reader::headers` on a reader with the default settings over
/// `data`, and copies the fields of the header row. Nothing is claimed of
/// the header but that it is the one the crate yields for these bytes.
#[verifier::external_body]
fn read_header(data: &[u8]) -> (header: Result<Vec<String>, csv::Error>)
    ensures
        row_fields(header) == csv_header(data@),
{
    let mut reader = csv::Reader::from_reader(data);
    match reader.headers() {
        Ok(header) => Ok(header.iter().map(|field| field.to_string()).collect()),
        Err(error) => Err(error),
    }
}

/// Calls `csv::Reader::records` on a reader with the default settings over
/// `data`, and copies the fields of each row, or keeps its error. Nothing is
/// claimed of the rows but that they are the ones the crate yields for these
/// bytes, the header row left out by the crate.
#[verifier::external_body]
fn read_rows(data: &[u8]) -> (rows: Vec<Result<Vec<String>, csv::Error>>)
    ensures
        rows@.map_values(|row: Result<Vec<String>, csv::Error>| row_fields(row)) == csv_rows(data@),
{
    let mut reader = csv::Reader::from_reader(data);
    reader.records().map(
        |row| row.map(|record| record.iter().map(|field| field.to_string()).collect()),
    ).collect()
}

/// The last data row of a table.
pub enum LastRow {
    /// The table has no data row.
    Nothing,
    /// The last data row could not be read.
    Malformed,
    /// The fields of the last data row.
    Fields(Vec<String>),
}

/// The texts of the last data row.
pub enum LastRowTexts {
    Nothing,
    Malformed,
    Fields(Seq<Seq<char>>),
}

impl View for LastRow {
    type V = LastRowTexts;

    open spec fn view(&self) -> LastRowTexts {
        match self {
            LastRow::Nothing => LastRowTexts::Nothing,
            LastRow::Malformed => LastRowTexts::Malformed,
            LastRow::Fields(fields) => LastRowTexts::Fields(fields_of(fields@)),
        }
    }
}

/// The last of `rows`.
pub open spec fn last_of(rows: Seq<Option<Seq<Seq<char>>>>) -> LastRowTexts {
    if rows.len() == 0 {
        LastRowTexts::Nothing
    } else {
        match rows.last() {
            Some(fields) => LastRowTexts::Fields(fields),
            None => LastRowTexts::Malformed,
        }
    }
}

/// What a table holds for the collector: the width of its header and its
/// last data row.
pub struct Table {
    pub header_width: usize,
    pub last: LastRow,
}

/// The table in `data`, where its header can be read.
pub open spec fn table_of(data: Seq<u8>) -> Option<(nat, LastRowTexts)> {
    match csv_header(data) {
        Some(header) => Some((header.len(), last_of(csv_rows(data)))),
        None => None,
    }
}

/// Reads the table in `data`: `None` where the header cannot be read.
pub fn read_table(data: &[u8]) -> (table: Option<Table>)
    ensures
        match table {
            Some(t) => table_of(data@) == Some((t.header_width as nat, t.last@)),
            None => table_of(data@) is None,
        },
{
    let header: Vec<String> = match read_header(data) {
        Ok(header) => header,
        Err(_) => {
            return None;
        },
    };
    let mut rows = read_rows(data);
    let ghost all = rows@.map_values(|row: Result<Vec<String>, csv::Error>| row_fields(row));
    let last: LastRow = match rows.pop() {
        None => LastRow::Nothing,
        Some(Ok(fields)) => LastRow::Fields(fields),
        Some(Err(_)) => LastRow::Malformed,
    };
    assert(last@ == last_of(all));
    Some(Table { header_width: header.len(), last })
}

} // verus!
