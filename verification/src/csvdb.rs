//! The store: a guest list in one file, read and rewritten as a whole.
//!
//! Every operation first puts the cursor where it needs it: a reading one at
//! the start, an appending one at the end, a rewriting one at the start of
//! the emptied file. Every operation on the list leaves the cursor at the
//! end of the file, whether it succeeds or fails, so that the next row lands
//! behind the last one; only `add_header` leaves it behind the header.
//!
//! Every operation takes the store by `&mut`: no two of them run on one
//! store at a time, reading ones included, since they share the cursor.
//!
//! What an operation does is stated over the bytes of the file. What the
//! `csv` crate and `chrono` make of bytes and of text is not known here, only
//! named ([`csv_read`], [`csv_write`] and the two names of `clock`); so the
//! contracts say which bytes are handed to them and what is done with each
//! answer that they can give.
use crate::clock::now;
use crate::csvio::{csv_read, csv_write, read_rows, write_row};
use crate::error::{Error, ErrorView, RowFault};
use crate::file::{lemma_write_at_end, overwritten, FileBuf};
use crate::model::{
    created_from_add, created_from_rsvp, merged, AddParams, AddParamsView, Attendance, RsvpModel,
    RsvpModelView, RsvpParams, RsvpParamsView, Timestamp,
};
use crate::roster::{
    answers, answers_any, count_heads, first_named, lemma_first_named_is_first, lookup,
    pick_named, split_named, tally, without,
};
use crate::row::{cells_of, encode, record_of, Layout, HEADER_LINE};
use crate::text::{key_of, keys_of, piece_key, query_keys, text_of};
use vstd::prelude::*;
use vstd::string::StringSliceAdditionalSpecFns;

verus! {

/// The header of a file: its first row, or no cells where the file has no
/// row.
pub open spec fn header_row(rows: Seq<Seq<Seq<char>>>) -> Seq<Seq<char>> {
    if rows.len() > 0 {
        rows.first()
    } else {
        Seq::empty()
    }
}

/// The rows of a file behind its header.
pub open spec fn data_rows(rows: Seq<Seq<Seq<char>>>) -> Seq<Seq<Seq<char>>> {
    if rows.len() > 0 {
        rows.skip(1)
    } else {
        Seq::empty()
    }
}

/// The records of the data rows, in their order; where a row is no record,
/// the fault of the first such row.
pub open spec fn decode_all(header: Seq<Seq<char>>, rows: Seq<Seq<Seq<char>>>) -> Result<
    Seq<RsvpModelView>,
    RowFault,
>
    decreases rows.len(),
{
    if rows.len() == 0 {
        Ok(Seq::empty())
    } else {
        match decode_all(header, rows.drop_last()) {
            Err(fault) => Err(fault),
            Ok(records) => match record_of(header, rows.last()) {
                Err(fault) => Err(fault),
                Ok(record) => Ok(records.push(record)),
            },
        }
    }
}

/// The first record among the data rows that answers to one of the keys.
/// The rows are taken one after another: a row that is no record is a fault
/// if it comes before such a record, and is not looked at if it comes after.
pub open spec fn search(
    header: Seq<Seq<char>>,
    rows: Seq<Seq<Seq<char>>>,
    keys: Seq<Seq<char>>,
) -> Result<Option<RsvpModelView>, RowFault>
    decreases rows.len(),
{
    if rows.len() == 0 {
        Ok(None)
    } else {
        match record_of(header, rows.first()) {
            Err(fault) => Err(fault),
            Ok(record) => if answers_any(record, keys) {
                Ok(Some(record))
            } else {
                search(header, rows.drop_first(), keys)
            },
        }
    }
}

/// The records that a file holds. A row that is no record comes before text
/// that the `csv` crate cannot read, because it is met first.
pub open spec fn records_in(bytes: Seq<u8>) -> Result<Seq<RsvpModelView>, ErrorView> {
    let (rows, whole) = csv_read(bytes);
    match decode_all(header_row(rows), data_rows(rows)) {
        Err(fault) => Err(ErrorView::Row(fault)),
        Ok(records) => if whole {
            Ok(records)
        } else {
            Err(ErrorView::Csv)
        },
    }
}

/// The record that a file holds for a query: the first one, in the order of
/// the file, that answers to one of the names in the query.
pub open spec fn found_in(bytes: Seq<u8>, query: Seq<char>) -> Result<
    Option<RsvpModelView>,
    ErrorView,
> {
    let (rows, whole) = csv_read(bytes);
    match search(header_row(rows), data_rows(rows), keys_of(query)) {
        Err(fault) => Err(ErrorView::Row(fault)),
        Ok(Some(record)) => Ok(Some(record)),
        Ok(None) => if whole {
            Ok(None)
        } else {
            Err(ErrorView::Csv)
        },
    }
}

/// The bytes of the header row, line end included.
pub open spec fn header_bytes() -> Seq<u8> {
    HEADER_LINE.spec_bytes().push(10u8)
}

/// The bytes of the row of a record, line end included.
pub open spec fn line_of(record: RsvpModelView) -> Result<Seq<u8>, ErrorView> {
    match cells_of(record) {
        None => Err(ErrorView::Row(RowFault::Time)),
        Some(cells) => match csv_write(cells) {
            None => Err(ErrorView::Csv),
            Some(bytes) => Ok(bytes),
        },
    }
}

/// The bytes of a file that holds the header and the given records; where a
/// record has no row, the error of the first such record.
pub open spec fn table_of(records: Seq<RsvpModelView>) -> Result<Seq<u8>, ErrorView>
    decreases records.len(),
{
    if records.len() == 0 {
        Ok(header_bytes())
    } else {
        match table_of(records.drop_last()) {
            Err(error) => Err(error),
            Ok(bytes) => match line_of(records.last()) {
                Err(error) => Err(error),
                Ok(line) => Ok(bytes + line),
            },
        }
    }
}

/// What an operation hands back, as contracts speak of it.
pub open spec fn outcome<T: DeepView>(result: Result<T, Error>) -> Result<T::V, ErrorView> {
    match result {
        Ok(value) => Ok(value.deep_view()),
        Err(error) => Err(error@),
    }
}

/// The record that a file holds of the guest `name`: the first one, in the
/// order of the file, whose name has the key of `name`. The names of
/// companions do not count, and the name is taken whole, `&` and all.
pub open spec fn named_in(bytes: Seq<u8>, name: Seq<char>) -> Result<
    Option<RsvpModelView>,
    ErrorView,
> {
    match records_in(bytes) {
        Err(error) => Err(error),
        Ok(records) => Ok(first_named(records, key_of(name))),
    }
}

/// What `insert` hands back, and the bytes of the file after it.
pub open spec fn inserted(bytes: Seq<u8>, params: AddParamsView, now: Timestamp) -> (
    Result<RsvpModelView, ErrorView>,
    Seq<u8>,
) {
    match named_in(bytes, params.name) {
        Err(error) => (Err(error), bytes),
        Ok(Some(_)) => (Err(ErrorView::Add(params)), bytes),
        Ok(None) => match line_of(created_from_add(params, now)) {
            Err(error) => (Err(error), bytes),
            Ok(line) => (Ok(created_from_add(params, now)), bytes + line),
        },
    }
}

/// What `remove` hands back, and the bytes of the file after it.
pub open spec fn removed(bytes: Seq<u8>, name: Seq<char>) -> (
    Result<Option<RsvpModelView>, ErrorView>,
    Seq<u8>,
) {
    match records_in(bytes) {
        Err(error) => (Err(error), bytes),
        Ok(records) => match first_named(records, key_of(name)) {
            None => (Ok(None), bytes),
            Some(record) => match table_of(without(records, key_of(name))) {
                Err(error) => (Err(error), bytes),
                Ok(table) => (Ok(Some(record)), table),
            },
        },
    }
}

/// The record that `upsert` writes where `found` is what it removed: the
/// record of a first answer where nothing was removed, and else the removed
/// record with the answer merged into it.
pub open spec fn renewed(found: Option<RsvpModelView>, params: RsvpParamsView, now: Timestamp) -> RsvpModelView {
    match found {
        None => created_from_rsvp(params, now),
        Some(record) => merged(record, params, now),
    }
}

/// What `upsert` hands back, and the bytes of the file after it. The row of
/// the record is made before the file is touched, and so is the table of the
/// other guests' records where the guest was on the list: an error leaves
/// the file as it was.
pub open spec fn upserted(bytes: Seq<u8>, params: RsvpParamsView, now: Timestamp) -> (
    Result<RsvpModelView, ErrorView>,
    Seq<u8>,
) {
    match records_in(bytes) {
        Err(error) => (Err(error), bytes),
        Ok(records) => {
            let found = first_named(records, key_of(params.name));
            let record = renewed(found, params, now);
            match line_of(record) {
                Err(error) => (Err(error), bytes),
                Ok(line) => match found {
                    None => (Ok(record), bytes + line),
                    Some(_) => match table_of(without(records, key_of(params.name))) {
                        Err(error) => (Err(error), bytes),
                        Ok(table) => (Ok(record), table + line),
                    },
                },
            }
        },
    }
}

/// Adds `data` behind what `out` holds.
fn push_bytes(out: &mut Vec<u8>, data: &[u8])
    ensures
        final(out)@ == old(out)@ + data@,
{
    let mut k: usize = 0;
    while k < data.len()
        invariant
            k <= data@.len(),
            out@ == old(out)@ + data@.take(k as int),
        decreases data@.len() - k,
    {
        out.push(data[k]);
        k = k + 1;
        assert(out@ =~= old(out)@ + data@.take(k as int));
    }
    assert(data@.take(k as int) == data@);
}

/// The bytes of the header row.
pub fn header_line() -> (r: Vec<u8>)
    ensures
        r@ == header_bytes(),
{
    let mut out: Vec<u8> = Vec::new();
    push_bytes(&mut out, HEADER_LINE.as_bytes());
    out.push(10u8);
    assert(out@ =~= header_bytes());
    out
}

/// The bytes of the row of a record.
pub fn encode_line(record: &RsvpModel) -> (r: Result<Vec<u8>, Error>)
    ensures
        match r {
            Ok(bytes) => line_of(record@) == Ok::<Seq<u8>, ErrorView>(bytes@),
            Err(error) => line_of(record@) == Err::<Seq<u8>, ErrorView>(error@),
        },
{
    match encode(record) {
        Err(fault) => Err(Error::Row(fault)),
        Ok(cells) => match write_row(&cells) {
            Err(text) => Err(Error::Csv(text)),
            Ok(bytes) => Ok(bytes),
        },
    }
}

/// The bytes of a file that holds the header and the given records.
pub fn encode_table(records: &Vec<RsvpModel>) -> (r: Result<Vec<u8>, Error>)
    ensures
        match r {
            Ok(bytes) => table_of(records.deep_view()) == Ok::<Seq<u8>, ErrorView>(bytes@),
            Err(error) => table_of(records.deep_view()) == Err::<Seq<u8>, ErrorView>(error@),
        },
{
    let ghost all = records.deep_view();
    let mut out = header_line();
    let mut i: usize = 0;
    proof {
        assert(all.take(0) == Seq::<RsvpModelView>::empty());
    }
    while i < records.len()
        invariant
            i <= records@.len(),
            all == records.deep_view(),
            table_of(all.take(i as int)) == Ok::<Seq<u8>, ErrorView>(out@),
        decreases records@.len() - i,
    {
        proof {
            assert(all[i as int] == records@[i as int]@);
            assert(all.take(i + 1).drop_last() == all.take(i as int));
            assert(all.take(i + 1).last() == records@[i as int]@);
        }
        match encode_line(&records[i]) {
            Err(error) => {
                proof {
                    lemma_table_fails(all, i + 1);
                }
                return Err(error);
            },
            Ok(line) => {
                push_bytes(&mut out, line.as_slice());
            },
        }
        i = i + 1;
    }
    proof {
        assert(all.take(i as int) == all);
    }
    Ok(out)
}

/// Where the first `n` records have no table, no more of them have one, and
/// the error stays the same.
pub proof fn lemma_table_fails(records: Seq<RsvpModelView>, n: int)
    requires
        0 <= n <= records.len(),
        table_of(records.take(n)) is Err,
    ensures
        table_of(records) == table_of(records.take(n)),
    decreases records.len() - n,
{
    if n == records.len() {
        assert(records.take(n) == records);
    } else {
        assert(records.take(n + 1).drop_last() == records.take(n));
        lemma_table_fails(records, n + 1);
    }
}

/// Where the first `n` rows hold one that is no record, the fault of all
/// rows is the fault of those.
pub proof fn lemma_decode_fails(header: Seq<Seq<char>>, rows: Seq<Seq<Seq<char>>>, n: int)
    requires
        0 <= n <= rows.len(),
        decode_all(header, rows.take(n)) is Err,
    ensures
        decode_all(header, rows) == decode_all(header, rows.take(n)),
    decreases rows.len() - n,
{
    if n == rows.len() {
        assert(rows.take(n) == rows);
    } else {
        assert(rows.take(n + 1).drop_last() == rows.take(n));
        lemma_decode_fails(header, rows, n + 1);
    }
}

/// Rows that all stand for records stand for as many records, row by row.
pub proof fn lemma_decode_all_each(header: Seq<Seq<char>>, rows: Seq<Seq<Seq<char>>>)
    requires
        decode_all(header, rows) is Ok,
    ensures
        decode_all(header, rows)->Ok_0.len() == rows.len(),
        forall|i: int|
            0 <= i < rows.len() ==> record_of(header, #[trigger] rows[i]) == Ok::<
                RsvpModelView,
                RowFault,
            >(decode_all(header, rows)->Ok_0[i]),
    decreases rows.len(),
{
    if rows.len() > 0 {
        let front = rows.drop_last();
        lemma_decode_all_each(header, front);
        let records = decode_all(header, rows)->Ok_0;
        assert forall|i: int| 0 <= i < rows.len() implies record_of(header, #[trigger] rows[i])
            == Ok::<RsvpModelView, RowFault>(records[i]) by {
            if i < front.len() {
                assert(rows[i] == front[i]);
            }
        }
    }
}

/// Rows that stand for the records of a list, row by row, stand for the
/// list.
pub proof fn lemma_decode_all_from_each(
    header: Seq<Seq<char>>,
    rows: Seq<Seq<Seq<char>>>,
    records: Seq<RsvpModelView>,
)
    requires
        records.len() == rows.len(),
        forall|i: int|
            0 <= i < rows.len() ==> record_of(header, #[trigger] rows[i]) == Ok::<
                RsvpModelView,
                RowFault,
            >(records[i]),
    ensures
        decode_all(header, rows) == Ok::<Seq<RsvpModelView>, RowFault>(records),
    decreases rows.len(),
{
    if rows.len() == 0 {
        assert(records == Seq::<RsvpModelView>::empty());
    } else {
        let front = rows.drop_last();
        assert forall|i: int| 0 <= i < front.len() implies record_of(header, #[trigger] front[i])
            == Ok::<RsvpModelView, RowFault>(records.drop_last()[i]) by {
            assert(front[i] == rows[i]);
        }
        lemma_decode_all_from_each(header, front, records.drop_last());
        assert(rows.last() == rows[rows.len() - 1]);
        assert(records.drop_last().push(records.last()) == records);
    }
}

/// Among rows that all stand for records, the search finds what `lookup`
/// finds among the records.
pub proof fn lemma_search_decoded(
    header: Seq<Seq<char>>,
    rows: Seq<Seq<Seq<char>>>,
    keys: Seq<Seq<char>>,
)
    requires
        decode_all(header, rows) is Ok,
    ensures
        search(header, rows, keys) == Ok::<Option<RsvpModelView>, RowFault>(
            lookup(decode_all(header, rows)->Ok_0, keys),
        ),
    decreases rows.len(),
{
    let records = decode_all(header, rows)->Ok_0;
    lemma_decode_all_each(header, rows);
    if rows.len() > 0 {
        let rest = rows.drop_first();
        assert(rows.first() == rows[0]);
        assert forall|i: int| 0 <= i < rest.len() implies record_of(header, #[trigger] rest[i])
            == Ok::<RsvpModelView, RowFault>(records.drop_first()[i]) by {
            assert(rest[i] == rows[i + 1]);
        }
        lemma_decode_all_from_each(header, rest, records.drop_first());
        lemma_search_decoded(header, rest, keys);
    }
}

/// A search that finds nothing has gone through all rows: they all stand
/// for records, and none of the records answers.
pub proof fn lemma_search_none(
    header: Seq<Seq<char>>,
    rows: Seq<Seq<Seq<char>>>,
    keys: Seq<Seq<char>>,
)
    requires
        search(header, rows, keys) == Ok::<Option<RsvpModelView>, RowFault>(None),
    ensures
        decode_all(header, rows) is Ok,
        lookup(decode_all(header, rows)->Ok_0, keys) is None,
    decreases rows.len(),
{
    if rows.len() > 0 {
        let rest = rows.drop_first();
        let head = record_of(header, rows.first())->Ok_0;
        lemma_search_none(header, rest, keys);
        let tail = decode_all(header, rest)->Ok_0;
        lemma_decode_all_each(header, rest);
        let records = seq![head] + tail;
        assert forall|i: int| 0 <= i < rows.len() implies record_of(header, #[trigger] rows[i])
            == Ok::<RsvpModelView, RowFault>(records[i]) by {
            if i > 0 {
                assert(rows[i] == rest[i - 1]);
            } else {
                assert(rows[0] == rows.first());
            }
        }
        lemma_decode_all_from_each(header, rows, records);
        assert(records.first() == head);
        assert(records.drop_first() == tail);
    }
}

/// In a file whose rows all stand for records, `get` finds what `lookup`
/// finds among them.
pub proof fn lemma_found_among_records(bytes: Seq<u8>, query: Seq<char>)
    requires
        records_in(bytes) is Ok,
    ensures
        found_in(bytes, query) == Ok::<Option<RsvpModelView>, ErrorView>(
            lookup(records_in(bytes)->Ok_0, keys_of(query)),
        ),
{
    let (rows, whole) = csv_read(bytes);
    lemma_search_decoded(header_row(rows), data_rows(rows), keys_of(query));
}

/// Where `get` finds nothing, the file holds records only, and none of them
/// answers.
pub proof fn lemma_none_among_records(bytes: Seq<u8>, query: Seq<char>)
    requires
        found_in(bytes, query) == Ok::<Option<RsvpModelView>, ErrorView>(None),
    ensures
        records_in(bytes) is Ok,
        lookup(records_in(bytes)->Ok_0, keys_of(query)) is None,
{
    let (rows, whole) = csv_read(bytes);
    lemma_search_none(header_row(rows), data_rows(rows), keys_of(query));
}

/// The guest list in its file, and the time that the next change is made at.
pub struct CsvDb {
    pub file: FileBuf,
    pub datetime: Timestamp,
}

/// Reads the whole file from its start: the layout that its header gives,
/// its rows with the header as the first, and what the `csv` crate said if
/// it could not read to the end.
fn read_table(file: &mut FileBuf) -> (r: (Layout, Vec<Vec<String>>, Option<String>))
    ensures
        r.1.deep_view() == csv_read(old(file)@.bytes).0,
        (r.2 is None) == csv_read(old(file)@.bytes).1,
        r.0.header() == header_row(r.1.deep_view()),
        final(file)@.bytes == old(file)@.bytes,
        final(file)@.pos == old(file)@.bytes.len(),
{
    file.seek_start();
    let bytes = file.read_to_end();
    assert(bytes@ == old(file)@.bytes) by {
        assert(old(file)@.bytes.subrange(0, old(file)@.bytes.len() as int) == old(file)@.bytes);
    }
    file.seek_end();
    let (rows, failure) = read_rows(bytes.as_slice());
    let layout = if rows.len() > 0 {
        assert(rows.deep_view().first() == rows@[0].deep_view());
        Layout::of(&rows[0])
    } else {
        let none: Vec<String> = Vec::new();
        assert(none.deep_view() =~= Seq::<Seq<char>>::empty());
        Layout::of(&none)
    };
    (layout, rows, failure)
}

/// The records of the rows behind the first.
fn decode_rows(layout: &Layout, rows: &Vec<Vec<String>>) -> (r: Result<Vec<RsvpModel>, RowFault>)
    ensures
        match r {
            Ok(records) => decode_all(layout.header(), data_rows(rows.deep_view())) == Ok::<
                Seq<RsvpModelView>,
                RowFault,
            >(records.deep_view()),
            Err(fault) => decode_all(layout.header(), data_rows(rows.deep_view())) == Err::<
                Seq<RsvpModelView>,
                RowFault,
            >(fault),
        },
{
    let ghost header = layout.header();
    let ghost data = data_rows(rows.deep_view());
    let mut records: Vec<RsvpModel> = Vec::new();
    let mut i: usize = 1;
    proof {
        assert(data.take(0) == Seq::<Seq<Seq<char>>>::empty());
        assert(records.deep_view() =~= Seq::<RsvpModelView>::empty());
    }
    while i < rows.len()
        invariant
            1 <= i,
            i <= rows@.len() || (rows@.len() == 0 && i == 1),
            header == layout.header(),
            data == data_rows(rows.deep_view()),
            decode_all(header, data.take(i - 1)) == Ok::<Seq<RsvpModelView>, RowFault>(
                records.deep_view(),
            ),
        decreases rows@.len() - i,
    {
        proof {
            assert(data[i - 1] == rows@[i as int].deep_view());
            assert(data.take(i as int).drop_last() == data.take(i - 1));
            assert(data.take(i as int).last() == data[i - 1]);
        }
        match layout.decode(&rows[i]) {
            Err(fault) => {
                proof {
                    lemma_decode_fails(header, data, i as int);
                }
                return Err(fault);
            },
            Ok(record) => {
                let ghost before = records.deep_view();
                records.push(record);
                assert(records.deep_view() =~= before.push(record@));
            },
        }
        i = i + 1;
    }
    proof {
        assert(rows.deep_view().len() == rows@.len());
        assert(data.len() == i - 1);
        assert(data.take(data.len() as int) == data);
    }
    Ok(records)
}

/// The first record among the rows behind the first that answers to one of
/// the keys.
fn search_rows(layout: &Layout, rows: &Vec<Vec<String>>, keys: &Vec<String>) -> (r: Result<
    Option<RsvpModel>,
    RowFault,
>)
    ensures
        match r {
            Ok(found) => search(
                layout.header(),
                data_rows(rows.deep_view()),
                keys.deep_view(),
            ) == Ok::<Option<RsvpModelView>, RowFault>(found.deep_view()),
            Err(fault) => search(
                layout.header(),
                data_rows(rows.deep_view()),
                keys.deep_view(),
            ) == Err::<Option<RsvpModelView>, RowFault>(fault),
        },
{
    let ghost header = layout.header();
    let ghost data = data_rows(rows.deep_view());
    let ghost wanted = keys.deep_view();
    let mut i: usize = 1;
    proof {
        assert(data.skip(0) == data);
    }
    while i < rows.len()
        invariant
            1 <= i,
            i <= rows@.len() || (rows@.len() == 0 && i == 1),
            header == layout.header(),
            data == data_rows(rows.deep_view()),
            wanted == keys.deep_view(),
            search(header, data, wanted) == search(header, data.skip(i - 1), wanted),
        decreases rows@.len() - i,
    {
        proof {
            assert(data[i - 1] == rows@[i as int].deep_view());
            assert(data.skip(i - 1).first() == data[i - 1]);
            assert(data.skip(i - 1).drop_first() == data.skip(i as int));
        }
        match layout.decode(&rows[i]) {
            Err(fault) => {
                return Err(fault);
            },
            Ok(record) => {
                if answers(&record, keys) {
                    return Ok(Some(record));
                }
            },
        }
        i = i + 1;
    }
    proof {
        assert(rows.deep_view().len() == rows@.len());
        assert(data.len() == i - 1);
        assert(data.skip(data.len() as int).len() == 0);
    }
    Ok(None)
}

impl CsvDb {
    /// A store on `file` that makes its changes at the time of this call.
    pub fn new(file: FileBuf) -> (r: CsvDb)
        ensures
            r.file == file,
    {
        CsvDb::new_with_time(file, now())
    }

    /// A store on `file` that makes its changes at `datetime`.
    pub fn new_with_time(file: FileBuf, datetime: Timestamp) -> (r: CsvDb)
        ensures
            r.file == file,
            r.datetime == datetime,
    {
        CsvDb { file, datetime }
    }

    /// Sets the time that the next change is made at.
    pub fn update_time(&mut self, new_datetime: Timestamp)
        ensures
            final(self).file == old(self).file,
            final(self).datetime == new_datetime,
    {
        self.datetime = new_datetime;
    }

    /// All records, in the order of the file.
    pub fn get_all(&mut self) -> (r: Result<Vec<RsvpModel>, Error>)
        ensures
            outcome(r) == records_in(old(self).file@.bytes),
            final(self).file@.bytes == old(self).file@.bytes,
            final(self).file@.pos == old(self).file@.bytes.len(),
            final(self).datetime == old(self).datetime,
    {
        let (layout, rows, failure) = read_table(&mut self.file);
        match decode_rows(&layout, &rows) {
            Err(fault) => Err(Error::Row(fault)),
            Ok(records) => match failure {
                Some(text) => Err(Error::Csv(text)),
                None => Ok(records),
            },
        }
    }

    /// The first record, in the order of the file, that answers to one of the
    /// names in `name`. The names stand between `&`. A record answers to a
    /// name by the name of the guest or of the companion, where the two are
    /// the same but for case and the white space around them.
    pub fn get(&mut self, name: &str) -> (r: Result<Option<RsvpModel>, Error>)
        ensures
            outcome(r) == found_in(old(self).file@.bytes, name@),
            final(self).file@.bytes == old(self).file@.bytes,
            final(self).file@.pos == old(self).file@.bytes.len(),
            final(self).datetime == old(self).datetime,
    {
        let (layout, rows, failure) = read_table(&mut self.file);
        let keys = query_keys(name);
        match search_rows(&layout, &rows, &keys) {
            Err(fault) => Err(Error::Row(fault)),
            Ok(Some(record)) => Ok(Some(record)),
            Ok(None) => match failure {
                Some(text) => Err(Error::Csv(text)),
                None => Ok(None),
            },
        }
    }

    /// The first record, in the order of the file, of the guest `name`: the
    /// one whose name is `name` but for case and the white space around it.
    /// The name is taken whole, and companions are not looked at.
    pub fn find(&mut self, name: &str) -> (r: Result<Option<RsvpModel>, Error>)
        ensures
            outcome(r) == named_in(old(self).file@.bytes, name@),
            final(self).file@.bytes == old(self).file@.bytes,
            final(self).file@.pos == old(self).file@.bytes.len(),
            final(self).datetime == old(self).datetime,
    {
        match self.get_all() {
            Err(error) => Err(error),
            Ok(records) => {
                let key = piece_key(name);
                Ok(pick_named(&records, &key))
            },
        }
    }

    /// Puts a guest on the list who is not on it yet. Where the list holds a
    /// record of the guest, found as `find` finds it, the guest is refused
    /// and the file stays as it is. Otherwise the row of the new record is
    /// written behind the last row.
    pub fn insert(&mut self, params: &AddParams) -> (r: Result<RsvpModel, Error>)
        ensures
            outcome(r) == inserted(old(self).file@.bytes, params@, old(self).datetime).0,
            final(self).file@.bytes == inserted(
                old(self).file@.bytes,
                params@,
                old(self).datetime,
            ).1,
            final(self).file@.pos == final(self).file@.bytes.len(),
            final(self).datetime == old(self).datetime,
    {
        match self.find(params.name.as_str()) {
            Err(error) => Err(error),
            Ok(Some(_)) => {
                self.file.seek_end();
                Err(Error::Add(params.clone()))
            },
            Ok(None) => {
                self.file.seek_end();
                let record = RsvpModel::new_with_add(params, self.datetime);
                match encode_line(&record) {
                    Err(error) => Err(error),
                    Ok(line) => {
                        proof {
                            lemma_write_at_end(self.file@.bytes, line@);
                        }
                        self.file.write_all(line.as_slice());
                        Ok(record)
                    },
                }
            },
        }
    }

    /// Writes the answer of a guest as the last row. The guest is looked for
    /// by the key of the name. Where the guest has a record, the answer is
    /// merged into the first such record, which keeps the name as it was
    /// written first; the file is then emptied and written again: the
    /// header, the records of all other guests in their order, and the
    /// merged record. Where the guest has none, the answer makes a new
    /// record, which is written behind the last row. Either way the list
    /// then holds one record of the guest, the last. Every row is made
    /// before the file is touched, so an error leaves it as it was.
    pub fn upsert(&mut self, params: &RsvpParams) -> (r: Result<RsvpModel, Error>)
        ensures
            outcome(r) == upserted(old(self).file@.bytes, params@, old(self).datetime).0,
            final(self).file@.bytes == upserted(
                old(self).file@.bytes,
                params@,
                old(self).datetime,
            ).1,
            final(self).file@.pos == final(self).file@.bytes.len(),
            final(self).datetime == old(self).datetime,
    {
        let records = match self.get_all() {
            Err(error) => { return Err(error); },
            Ok(records) => records,
        };
        let key = piece_key(params.name.as_str());
        proof {
            lemma_first_named_is_first(records.deep_view(), key@);
        }
        let (first, others) = split_named(records, &key);
        let found = first.is_some();
        let record = match first {
            Some(mut record) => {
                match record.update(params, self.datetime) {
                    Err(error) => { return Err(error); },
                    Ok(()) => {},
                }
                record
            },
            None => RsvpModel::new_with_rsvp(params, self.datetime),
        };
        let line = match encode_line(&record) {
            Err(error) => { return Err(error); },
            Ok(line) => line,
        };
        if found {
            let table = match encode_table(&others) {
                Err(error) => { return Err(error); },
                Ok(table) => table,
            };
            self.file.truncate();
            self.file.seek_start();
            self.file.write_all(table.as_slice());
            proof {
                lemma_write_at_end(Seq::<u8>::empty(), table@);
                assert(self.file@.bytes == table@);
                lemma_write_at_end(table@, line@);
            }
            self.file.write_all(line.as_slice());
        } else {
            self.file.seek_end();
            proof {
                lemma_write_at_end(self.file@.bytes, line@);
            }
            self.file.write_all(line.as_slice());
        }
        Ok(record)
    }

    /// Takes the guest `name` off the list. The records of the guest are
    /// those whose name has the key of `name`: the same name but for case
    /// and the white space around it. Where there is one, the file is emptied and
    /// written again from its start: the header, then the records of all
    /// other guests in their order; the first record of the guest is handed
    /// back. The file is replaced only when every row has been made, so an
    /// error leaves it as it was.
    pub fn remove(&mut self, name: &str) -> (r: Result<Option<RsvpModel>, Error>)
        ensures
            outcome(r) == removed(old(self).file@.bytes, name@).0,
            final(self).file@.bytes == removed(old(self).file@.bytes, name@).1,
            final(self).file@.pos == final(self).file@.bytes.len(),
            final(self).datetime == old(self).datetime,
    {
        let records = match self.get_all() {
            Err(error) => { return Err(error); },
            Ok(records) => records,
        };
        let key = piece_key(name);
        let (first, others) = split_named(records, &key);
        match first {
            None => {
                self.file.seek_end();
                Ok(None)
            },
            Some(record) => {
                let table = match encode_table(&others) {
                    Err(error) => { return Err(error); },
                    Ok(table) => table,
                };
                self.file.truncate();
                self.file.seek_start();
                self.file.write_all(table.as_slice());
                proof {
                    lemma_write_at_end(Seq::<u8>::empty(), table@);
                    assert(self.file@.bytes == table@);
                }
                Ok(Some(record))
            },
        }
    }

    /// The whole file as text, or nothing where the file is not UTF-8.
    pub fn contents(&mut self) -> (r: Option<String>)
        ensures
            match r {
                Some(text) => vstd::utf8::valid_utf8(old(self).file@.bytes) && text@
                    == vstd::utf8::decode_utf8(old(self).file@.bytes),
                None => !vstd::utf8::valid_utf8(old(self).file@.bytes),
            },
            final(self).file@.bytes == old(self).file@.bytes,
            final(self).file@.pos == old(self).file@.bytes.len(),
            final(self).datetime == old(self).datetime,
    {
        self.file.seek_start();
        let bytes = self.file.read_to_end();
        assert(bytes@ == old(self).file@.bytes) by {
            assert(old(self).file@.bytes.subrange(0, old(self).file@.bytes.len() as int) == old(
                self,
            ).file@.bytes);
        }
        self.file.seek_end();
        let text = text_of(bytes);
        proof {
            if text is Some {
                vstd::utf8::encode_utf8_decode_utf8(text->0@);
            }
        }
        text
    }

    /// The whole file as text.
    pub fn dump(&mut self) -> (r: String)
        requires
            vstd::utf8::valid_utf8(old(self).file@.bytes),
        ensures
            r@ == vstd::utf8::decode_utf8(old(self).file@.bytes),
            final(self).file@.bytes == old(self).file@.bytes,
            final(self).file@.pos == old(self).file@.bytes.len(),
            final(self).datetime == old(self).datetime,
    {
        match self.contents() {
            Some(text) => text,
            None => String::new(),
        }
    }

    /// Writes the header row over the start of the file.
    pub fn add_header(&mut self)
        ensures
            final(self).file@.bytes == overwritten(old(self).file@.bytes, 0, header_bytes()),
            final(self).file@.pos == header_bytes().len(),
            final(self).datetime == old(self).datetime,
    {
        self.file.seek_start();
        let line = header_line();
        self.file.write_all(line.as_slice());
    }

    /// The head counts of the three parts of the event.
    pub fn attendance(&mut self) -> (r: Result<Attendance, Error>)
        ensures
            outcome(r) == match records_in(old(self).file@.bytes) {
                Ok(records) => Ok::<Attendance, ErrorView>(tally(records)),
                Err(error) => Err::<Attendance, ErrorView>(error),
            },
            final(self).file@.bytes == old(self).file@.bytes,
            final(self).file@.pos == old(self).file@.bytes.len(),
            final(self).datetime == old(self).datetime,
    {
        match self.get_all() {
            Err(error) => Err(error),
            Ok(records) => Ok(count_heads(&records)),
        }
    }
}

impl Default for CsvDb {
    /// A store on a new file that holds the header and no record.
    fn default() -> (r: CsvDb)
        ensures
            r.file@.bytes == header_bytes(),
            r.file@.pos == header_bytes().len(),
    {
        let mut db = CsvDb::new(FileBuf::new());
        db.add_header();
        proof {
            lemma_write_at_end(Seq::<u8>::empty(), header_bytes());
            assert(db.file@.bytes =~= header_bytes());
        }
        db
    }
}

} // verus!
