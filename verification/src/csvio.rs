//! The reader and the writer of the `csv` crate, on text held in memory.
use vstd::prelude::*;

verus! {

/// What the reader of the `csv` crate makes of a text: the rows that it reads
/// before it stops, each as its cells, and whether it stopped at the end of
/// the text (`true`) or at something that it could not take as a row
/// (`false`). The first row of a file, the header, is one of them.
pub uninterp spec fn csv_read(data: Seq<u8>) -> (Seq<Seq<Seq<char>>>, bool);

/// The bytes that the writer of the `csv` crate makes of the cells of one
/// row, the line end included, or `None` where it refuses them.
pub uninterp spec fn csv_write(cells: Seq<Seq<char>>) -> Option<Seq<u8>>;

/// `csv::Reader::records`, on a reader that `csv::ReaderBuilder` makes with
/// `has_headers(false)` and otherwise as it comes: the rows up to the first
/// one that the reader reports as an error, and that error's text if there is
/// one. The reader sees nothing but the bytes, so what it yields is named
/// [`csv_read`]; nothing is claimed of what the rows hold.
#[verifier::external_body]
pub(crate) fn read_rows(data: &[u8]) -> (r: (Vec<Vec<String>>, Option<String>))
    ensures
        r.0.deep_view() == csv_read(data@).0,
        (r.1 is None) == csv_read(data@).1,
{
    let mut reader = csv::ReaderBuilder::new().has_headers(false).from_reader(data);
    let mut rows: Vec<Vec<String>> = Vec::new();
    for item in reader.records() {
        match item {
            Ok(record) => rows.push(record.iter().map(|cell| cell.to_string()).collect()),
            Err(error) => return (rows, Some(error.to_string())),
        }
    }
    (rows, None)
}

/// `csv::Writer::write_record`, on a writer that `csv::WriterBuilder` makes
/// with `has_headers(false)` over an empty `Vec<u8>`, followed by
/// `into_inner`: the bytes of one row, or the text of the error that either
/// call gave. The writer sees nothing but the cells, so what it yields is
/// named [`csv_write`]; nothing is claimed of the bytes.
#[verifier::external_body]
pub(crate) fn write_row(cells: &Vec<String>) -> (r: Result<Vec<u8>, String>)
    ensures
        match r {
            Ok(bytes) => csv_write(cells.deep_view()) == Some(bytes@),
            Err(_) => csv_write(cells.deep_view()) is None,
        },
{
    let mut writer = csv::WriterBuilder::new().has_headers(false).from_writer(Vec::new());
    match writer.write_record(cells) {
        Ok(()) => match writer.into_inner() {
            Ok(bytes) => Ok(bytes),
            Err(error) => Err(error.to_string()),
        },
        Err(error) => Err(error.to_string()),
    }
}

} // verus!
