//! What holds of the operations of the store when one follows another.
//!
//! The store reads its file through the `csv` crate and `chrono` each time,
//! and nothing here says that they read back what they wrote. Each law that
//! speaks of a file after a write therefore asks that this file reads back:
//! that it holds the records that the write left, in their order
//! ([`insert_kept`], [`upsert_kept`], [`remove_kept`]). A file to which a
//! row was added behind text that does not end in a line end is one that
//! does not read back.
//!
//! The last part of the file shows what this asks of the two crates: that
//! `csv` reads the rows that it wrote ([`csv_reads_appended`],
//! [`csv_reads_table`]) and `chrono` the times ([`time_reads_back`]). The
//! rest, from the names of the columns to the order of the records, is
//! proved.
//!
//! Names are compared by their keys throughout, so the laws hold of a name
//! in any case and with any white space around it. `insert`, `upsert` and
//! `remove` take a name whole; only `get` parts what it is asked for at `&`
//! and looks at companions too, so the law of `insert` and `get` speaks of
//! queries without `&` and of names that are not an earlier companion's.
use crate::csvdb::{
    data_rows, found_in, header_row, inserted, lemma_decode_all_from_each,
    lemma_found_among_records, line_of, records_in, removed, table_of,
    upserted,
};
use crate::csvio::{csv_read, csv_write};
use crate::error::{ErrorView, RowFault};
use crate::model::{
    created_from_add, created_from_rsvp, merged, AddParamsView, RsvpModelView, RsvpParamsView,
    Timestamp,
};
use crate::roster::{
    answers_any, answers_to, distinct_names, first_named, is_named, lemma_distinct_kept,
    lemma_first_named_is_first, lemma_first_named_push, lemma_lookup_is_first, lemma_lookup_push,
    lemma_without_absent, lemma_without_holds, lemma_without_one, lemma_without_push, lookup,
    without,
};
use crate::row::{cells_of, column_names, lemma_row_reads_back, record_of, time_reads_back};
use crate::text::{key_of, keys_of, lemma_keys_single, lemma_trimmed_padded, white_space};
use vstd::prelude::*;

verus! {

/// The records of a file that holds records only.
pub open spec fn listed(bytes: Seq<u8>) -> Seq<RsvpModelView> {
    records_in(bytes)->Ok_0
}

/// The query asks for the guest `name` and for nobody else: it has no `&`,
/// and differs from the name in case and in the white space around it at
/// most.
pub open spec fn asks_for(query: Seq<char>, name: Seq<char>) -> bool {
    !query.contains('&') && key_of(query) == key_of(name)
}

/// A name with white space put around it asks for that name, where none of
/// the three has an `&`.
pub proof fn lemma_padded_asks_for(before: Seq<char>, name: Seq<char>, after: Seq<char>)
    requires
        forall|j: int| 0 <= j < before.len() ==> white_space(#[trigger] before[j]),
        forall|j: int| 0 <= j < after.len() ==> white_space(#[trigger] after[j]),
        !before.contains('&'),
        !name.contains('&'),
        !after.contains('&'),
    ensures
        asks_for(before + name + after, name),
{
    let query = before + name + after;
    lemma_trimmed_padded(before, name, after);
    if query.contains('&') {
        let j = choose|j: int| 0 <= j < query.len() && query[j] == '&';
        if j < before.len() {
            assert(before.contains(before[j]));
        } else if j < before.len() + name.len() {
            assert(name.contains(name[j - before.len()]));
        } else {
            assert(after.contains(after[j - before.len() - name.len()]));
        }
    }
}

/// `insert` succeeds, and the file that it leaves reads back: it holds the
/// records from before and the new one behind them.
pub open spec fn insert_kept(bytes: Seq<u8>, params: AddParamsView, now: Timestamp) -> bool {
    let (result, after) = inserted(bytes, params, now);
    result is Ok && records_in(bytes) is Ok && records_in(after) == Ok::<
        Seq<RsvpModelView>,
        ErrorView,
    >(listed(bytes).push(result->Ok_0))
}

/// `upsert` succeeds, and the file that it leaves reads back: it holds the
/// records of the other guests and the written one behind them.
pub open spec fn upsert_kept(bytes: Seq<u8>, params: RsvpParamsView, now: Timestamp) -> bool {
    let (result, after) = upserted(bytes, params, now);
    result is Ok && records_in(bytes) is Ok && records_in(after) == Ok::<
        Seq<RsvpModelView>,
        ErrorView,
    >(without(listed(bytes), key_of(params.name)).push(result->Ok_0))
}

/// `remove` succeeds, and the file that it leaves reads back: it holds the
/// records of the other guests.
pub open spec fn remove_kept(bytes: Seq<u8>, name: Seq<char>) -> bool {
    let (result, after) = removed(bytes, name);
    result is Ok && records_in(bytes) is Ok && records_in(after) == Ok::<
        Seq<RsvpModelView>,
        ErrorView,
    >(without(listed(bytes), key_of(name)))
}

/// No record has a companion whose name has the key.
pub open spec fn no_companion(records: Seq<RsvpModelView>, key: Seq<char>) -> bool {
    forall|i: int| 0 <= i < records.len() ==> key_of((#[trigger] records[i]).plus_one_name) != key
}

/// `insert` refuses a guest exactly where the list holds a record whose name
/// has the key of the guest's name, and then leaves the file as it is. The
/// names of companions and the pieces of a name with `&` refuse nobody.
pub proof fn law_insert_refused(bytes: Seq<u8>, params: AddParamsView, now: Timestamp)
    requires
        records_in(bytes) is Ok,
    ensures
        inserted(bytes, params, now).0 == Err::<RsvpModelView, ErrorView>(ErrorView::Add(params))
            <==> exists|i: int|
            0 <= i < listed(bytes).len() && is_named(#[trigger] listed(bytes)[i], key_of(params.name)),
        inserted(bytes, params, now).0 is Err ==> inserted(bytes, params, now).1 == bytes,
{
    lemma_first_named_is_first(listed(bytes), key_of(params.name));
}

/// A guest of whom the list holds no record is put on the list wherever the
/// new row can be made: `insert` hands back the new record, both of its times
/// the time of the store, and the file is longer by the row of that record.
pub proof fn law_insert_new_guest(bytes: Seq<u8>, params: AddParamsView, now: Timestamp)
    requires
        records_in(bytes) is Ok,
        first_named(listed(bytes), key_of(params.name)) is None,
        line_of(created_from_add(params, now)) is Ok,
    ensures
        inserted(bytes, params, now) == (
            Ok::<RsvpModelView, ErrorView>(created_from_add(params, now)),
            bytes + line_of(created_from_add(params, now))->Ok_0,
        ),
        created_from_add(params, now).created_at == now,
        created_from_add(params, now).updated_at == now,
{
}

/// A guest who has been put on the list is found under the own name, in any
/// case and with any white space around it: `get` hands back the record that
/// `insert` handed back. This asks that the query has no `&`, which would
/// part it, and that the name is not that of an earlier guest's companion,
/// who would be found first.
pub proof fn law_insert_then_get(
    bytes: Seq<u8>,
    params: AddParamsView,
    now: Timestamp,
    query: Seq<char>,
)
    requires
        insert_kept(bytes, params, now),
        asks_for(query, params.name),
        no_companion(listed(bytes), key_of(params.name)),
    ensures
        found_in(inserted(bytes, params, now).1, query) == Ok::<Option<RsvpModelView>, ErrorView>(
            Some(inserted(bytes, params, now).0->Ok_0),
        ),
{
    let record = created_from_add(params, now);
    let after = inserted(bytes, params, now).1;
    let records = listed(bytes);
    lemma_keys_single(query);
    let keys = keys_of(query);
    lemma_first_named_is_first(records, key_of(params.name));
    lemma_lookup_is_first(records, keys);
    if lookup(records, keys) is Some {
        let found = lookup(records, keys)->0;
        let i = choose|i: int|
            0 <= i < records.len() && #[trigger] records[i] == found && answers_any(found, keys);
        let k = choose|k: int| 0 <= k < keys.len() && answers_to(found, #[trigger] keys[k]);
        assert(is_named(records[i], key_of(params.name)) || key_of(records[i].plus_one_name)
            == key_of(params.name));
    }
    assert(answers_to(record, keys[0]));
    lemma_lookup_push(records, record, keys);
    lemma_found_among_records(after, query);
}

/// A guest cannot be put on the list twice: an `insert` under the name of a
/// guest who was put on the list, in any case and with any white space
/// around it, is refused with the parameters it was given, whatever else
/// they hold, and the file stays as the first `insert` left it.
pub proof fn law_insert_twice(
    bytes: Seq<u8>,
    params: AddParamsView,
    now: Timestamp,
    again: AddParamsView,
    later: Timestamp,
)
    requires
        insert_kept(bytes, params, now),
        key_of(again.name) == key_of(params.name),
    ensures
        inserted(inserted(bytes, params, now).1, again, later) == (
            Err::<RsvpModelView, ErrorView>(ErrorView::Add(again)),
            inserted(bytes, params, now).1,
        ),
{
    lemma_first_named_push(listed(bytes), created_from_add(params, now), key_of(params.name));
}

/// The record that a successful `upsert` hands back is one of the guest of
/// the answer. Where the guest was on the list, it is the guest's first
/// record with the answer merged into it, under the name that this record
/// bore; where not, it is the record of a first answer.
pub proof fn law_upsert_result(bytes: Seq<u8>, params: RsvpParamsView, now: Timestamp)
    requires
        upserted(bytes, params, now).0 is Ok,
    ensures
        records_in(bytes) is Ok,
        is_named(upserted(bytes, params, now).0->Ok_0, key_of(params.name)),
        upserted(bytes, params, now).0->Ok_0 == match first_named(
            listed(bytes),
            key_of(params.name),
        ) {
            Some(record) => merged(record, params, now),
            None => created_from_rsvp(params, now),
        },
{
    lemma_first_named_is_first(listed(bytes), key_of(params.name));
}

/// The same answer given twice leaves one record of the guest, the last of
/// the list: its time of creation is that of the first answer's record, its
/// time of change is that of the second answer, and the list is as long as
/// after the first answer.
pub proof fn law_upsert_twice(
    bytes: Seq<u8>,
    params: RsvpParamsView,
    first: Timestamp,
    second: Timestamp,
)
    requires
        upsert_kept(bytes, params, first),
        upsert_kept(upserted(bytes, params, first).1, params, second),
    ensures
        ({
            let (once, middle) = upserted(bytes, params, first);
            let (twice, after) = upserted(middle, params, second);
            &&& twice == Ok::<RsvpModelView, ErrorView>(merged(once->Ok_0, params, second))
            &&& twice->Ok_0.created_at == once->Ok_0.created_at
            &&& twice->Ok_0.updated_at == second
            &&& listed(after) == without(listed(bytes), key_of(params.name)).push(twice->Ok_0)
            &&& first_named(without(listed(bytes), key_of(params.name)), key_of(params.name)) is None
            &&& is_named(twice->Ok_0, key_of(params.name))
            &&& listed(after).len() == listed(middle).len()
        }),
{
    let key = key_of(params.name);
    let (once, middle) = upserted(bytes, params, first);
    let others = without(listed(bytes), key);
    law_upsert_result(bytes, params, first);
    lemma_without_holds(listed(bytes), key);
    lemma_first_named_push(others, once->Ok_0, key);
    lemma_without_push(others, once->Ok_0, key);
    law_upsert_result(middle, params, second);
}

/// The answer of a guest who is not on the list makes the list longer by
/// the record of that answer.
pub proof fn law_upsert_new_guest(bytes: Seq<u8>, params: RsvpParamsView, now: Timestamp)
    requires
        upsert_kept(bytes, params, now),
        first_named(listed(bytes), key_of(params.name)) is None,
    ensures
        upserted(bytes, params, now).0 == Ok::<RsvpModelView, ErrorView>(
            created_from_rsvp(params, now),
        ),
        listed(upserted(bytes, params, now).1) == listed(bytes).push(created_from_rsvp(params, now)),
        listed(upserted(bytes, params, now).1).len() == listed(bytes).len() + 1,
{
    lemma_without_absent(listed(bytes), key_of(params.name));
}

/// The answer of a guest who is on the list, under the guest's name in any
/// case and with any white space around it, leaves the list as long as it
/// was and moves the record of the guest to its end, with the answer merged
/// into it.
pub proof fn law_upsert_known_guest(bytes: Seq<u8>, params: RsvpParamsView, now: Timestamp)
    requires
        upsert_kept(bytes, params, now),
        distinct_names(listed(bytes)),
        first_named(listed(bytes), key_of(params.name)) is Some,
    ensures
        ({
            let (result, after) = upserted(bytes, params, now);
            let found = first_named(listed(bytes), key_of(params.name))->0;
            &&& listed(after).len() == listed(bytes).len()
            &&& listed(after).last() == result->Ok_0
            &&& is_named(result->Ok_0, key_of(params.name))
            &&& result->Ok_0 == merged(found, params, now)
            &&& result->Ok_0.name == found.name
            &&& result->Ok_0.created_at == found.created_at
            &&& result->Ok_0.updated_at == now
            &&& distinct_names(listed(after))
        }),
{
    let key = key_of(params.name);
    let (result, after) = upserted(bytes, params, now);
    law_upsert_result(bytes, params, now);
    lemma_without_one(listed(bytes), key);
    lemma_distinct_kept(listed(bytes), key, result->Ok_0);
}

/// After an answer has been written, the list holds one record of the
/// guest, and that record is the last.
pub proof fn law_upsert_one_row(bytes: Seq<u8>, params: RsvpParamsView, now: Timestamp)
    requires
        upsert_kept(bytes, params, now),
    ensures
        ({
            let (result, after) = upserted(bytes, params, now);
            &&& listed(after) == without(listed(bytes), key_of(params.name)).push(result->Ok_0)
            &&& listed(after).last() == result->Ok_0
            &&& is_named(result->Ok_0, key_of(params.name))
            &&& first_named(listed(after).drop_last(), key_of(params.name)) is None
        }),
{
    let key = key_of(params.name);
    let (result, after) = upserted(bytes, params, now);
    law_upsert_result(bytes, params, now);
    lemma_without_holds(listed(bytes), key);
    assert(listed(after).drop_last() == without(listed(bytes), key));
}

/// An answer that reads and writes is never refused: `upsert` fails only
/// where the file does not read or a row cannot be written.
pub proof fn law_upsert_never_refused(bytes: Seq<u8>, params: RsvpParamsView, now: Timestamp)
    ensures
        match upserted(bytes, params, now).0 {
            Ok(_) => true,
            Err(error) => error is Csv || error is Row,
        },
{
    if records_in(bytes) is Ok {
        lemma_table_errors(without(listed(bytes), key_of(params.name)));
    }
}

/// Where a table has no bytes, the reason is a row or the `csv` crate.
pub proof fn lemma_table_errors(records: Seq<RsvpModelView>)
    ensures
        match table_of(records) {
            Ok(_) => true,
            Err(error) => error is Csv || error is Row,
        },
    decreases records.len(),
{
    if records.len() > 0 {
        lemma_table_errors(records.drop_last());
    }
}

/// A list on which no two records are of the same guest stays such a list
/// when a guest is put on it.
pub proof fn law_insert_keeps_names_distinct(bytes: Seq<u8>, params: AddParamsView, now: Timestamp)
    requires
        insert_kept(bytes, params, now),
        distinct_names(listed(bytes)),
    ensures
        distinct_names(listed(inserted(bytes, params, now).1)),
{
    let records = listed(bytes);
    let record = created_from_add(params, now);
    lemma_first_named_is_first(records, key_of(params.name));
    let grown = records.push(record);
    assert forall|i: int, j: int| 0 <= i < j < grown.len() implies key_of(
        #[trigger] grown[i].name,
    ) != key_of(#[trigger] grown[j].name) by {
        if j == grown.len() - 1 {
            assert(grown[i] == records[i]);
            assert(!is_named(records[i], key_of(params.name)));
        } else {
            assert(grown[i] == records[i] && grown[j] == records[j]);
        }
    }
}

/// A list on which no two records are of the same guest stays such a list
/// when an answer is written to it.
pub proof fn law_upsert_keeps_names_distinct(bytes: Seq<u8>, params: RsvpParamsView, now: Timestamp)
    requires
        upsert_kept(bytes, params, now),
        distinct_names(listed(bytes)),
    ensures
        distinct_names(listed(upserted(bytes, params, now).1)),
{
    law_upsert_result(bytes, params, now);
    lemma_distinct_kept(listed(bytes), key_of(params.name), upserted(bytes, params, now).0->Ok_0);
}

/// The bytes of the file after the answers have been written one after
/// another, each at its time.
pub open spec fn upserted_all(
    bytes: Seq<u8>,
    answers: Seq<RsvpParamsView>,
    times: Seq<Timestamp>,
) -> Seq<u8>
    decreases answers.len(),
{
    if answers.len() == 0 {
        bytes
    } else {
        upserted(
            upserted_all(bytes, answers.drop_last(), times.drop_last()),
            answers.last(),
            times.last(),
        ).1
    }
}

/// Every one of the answers is written, and every file on the way reads
/// back.
pub open spec fn all_kept(bytes: Seq<u8>, answers: Seq<RsvpParamsView>, times: Seq<Timestamp>) -> bool
    decreases answers.len(),
{
    answers.len() == 0 || (all_kept(bytes, answers.drop_last(), times.drop_last()) && upsert_kept(
        upserted_all(bytes, answers.drop_last(), times.drop_last()),
        answers.last(),
        times.last(),
    ))
}

/// The records that first answers make, each at its time.
pub open spec fn first_records(answers: Seq<RsvpParamsView>, times: Seq<Timestamp>) -> Seq<
    RsvpModelView,
> {
    Seq::new(answers.len(), |i: int| created_from_rsvp(answers[i], times[i]))
}

/// The answers of as many guests as there are answers, no two of them under
/// names of one key, written one after another to a list without records,
/// leave as many records as there are answers: the record of each answer,
/// in the order of the answers.
pub proof fn law_upsert_distinct(
    bytes: Seq<u8>,
    answers: Seq<RsvpParamsView>,
    times: Seq<Timestamp>,
)
    requires
        records_in(bytes) == Ok::<Seq<RsvpModelView>, ErrorView>(Seq::empty()),
        times.len() == answers.len(),
        forall|i: int, j: int|
            0 <= i < j < answers.len() ==> key_of(#[trigger] answers[i].name) != key_of(
                #[trigger] answers[j].name,
            ),
        all_kept(bytes, answers, times),
    ensures
        records_in(upserted_all(bytes, answers, times)) == Ok::<Seq<RsvpModelView>, ErrorView>(
            first_records(answers, times),
        ),
        listed(upserted_all(bytes, answers, times)).len() == answers.len(),
        distinct_names(listed(upserted_all(bytes, answers, times))),
    decreases answers.len(),
{
    if answers.len() == 0 {
        assert(first_records(answers, times) =~= Seq::<RsvpModelView>::empty());
    } else {
        let front = answers.drop_last();
        let earlier = times.drop_last();
        assert forall|i: int, j: int| 0 <= i < j < front.len() implies key_of(
            #[trigger] front[i].name,
        ) != key_of(#[trigger] front[j].name) by {
            assert(front[i] == answers[i] && front[j] == answers[j]);
        }
        law_upsert_distinct(bytes, front, earlier);
        let middle = upserted_all(bytes, front, earlier);
        let last = answers.last();
        let key = key_of(last.name);
        let records = listed(middle);
        lemma_first_named_is_first(records, key);
        if first_named(records, key) is Some {
            let found = first_named(records, key)->0;
            let i = choose|i: int|
                0 <= i < records.len() && #[trigger] records[i] == found && is_named(found, key);
            assert(records[i].name == answers[i].name);
            assert(key_of(answers[i].name) != key_of(answers[answers.len() - 1].name));
        }
        law_upsert_new_guest(middle, last, times.last());
        let after = upserted_all(bytes, answers, times);
        assert(listed(after) =~= first_records(answers, times)) by {
            assert forall|i: int| 0 <= i < answers.len() implies listed(after)[i] == first_records(
                answers,
                times,
            )[i] by {
                if i < front.len() {
                    assert(front[i] == answers[i] && earlier[i] == times[i]);
                }
            }
        }
        let all = listed(after);
        assert forall|i: int, j: int| 0 <= i < j < all.len() implies key_of(
            #[trigger] all[i].name,
        ) != key_of(#[trigger] all[j].name) by {
            assert(all[i].name == answers[i].name && all[j].name == answers[j].name);
        }
    }
}

/// Taking a guest off the list who is not on it hands back nothing and
/// leaves the file, and with it the list, as it was.
pub proof fn law_remove_absent(bytes: Seq<u8>, name: Seq<char>)
    requires
        records_in(bytes) is Ok,
        first_named(listed(bytes), key_of(name)) is None,
    ensures
        removed(bytes, name) == (Ok::<Option<RsvpModelView>, ErrorView>(None), bytes),
{
}

/// Taking a guest off the list who is on it hands back the record of the
/// guest, as it is stored, wherever the rows of the other guests can be
/// made. Where no two records are of the same guest, it is the one record
/// of the guest.
pub proof fn law_remove_hands_back(bytes: Seq<u8>, name: Seq<char>)
    requires
        records_in(bytes) is Ok,
        first_named(listed(bytes), key_of(name)) is Some,
        table_of(without(listed(bytes), key_of(name))) is Ok,
    ensures
        removed(bytes, name).0 == Ok::<Option<RsvpModelView>, ErrorView>(
            first_named(listed(bytes), key_of(name)),
        ),
        listed(bytes).contains(first_named(listed(bytes), key_of(name))->0),
        is_named(first_named(listed(bytes), key_of(name))->0, key_of(name)),
        distinct_names(listed(bytes)) ==> forall|i: int|
            0 <= i < listed(bytes).len() && is_named(#[trigger] listed(bytes)[i], key_of(name))
                ==> listed(bytes)[i] == first_named(listed(bytes), key_of(name))->0,
{
    let key = key_of(name);
    let records = listed(bytes);
    lemma_first_named_is_first(records, key);
    let found = first_named(records, key)->0;
    let m = choose|m: int| 0 <= m < records.len() && #[trigger] records[m] == found && is_named(found, key);
    if distinct_names(records) {
        assert forall|i: int| 0 <= i < records.len() && is_named(#[trigger] records[i], key) implies records[i] == found by {
            if i < m {
                assert(key_of(records[i].name) != key_of(records[m].name));
            } else if m < i {
                assert(key_of(records[m].name) != key_of(records[i].name));
            }
        }
    }
}

/// Taking a guest off the list who is on it hands back the record of the
/// guest and makes the list shorter by one.
pub proof fn law_remove_present(bytes: Seq<u8>, name: Seq<char>)
    requires
        remove_kept(bytes, name),
        distinct_names(listed(bytes)),
        first_named(listed(bytes), key_of(name)) is Some,
    ensures
        removed(bytes, name).0 == Ok::<Option<RsvpModelView>, ErrorView>(
            first_named(listed(bytes), key_of(name)),
        ),
        is_named(first_named(listed(bytes), key_of(name))->0, key_of(name)),
        listed(removed(bytes, name).1).len() == listed(bytes).len() - 1,
        first_named(listed(removed(bytes, name).1), key_of(name)) is None,
{
    let key = key_of(name);
    lemma_first_named_is_first(listed(bytes), key);
    lemma_without_one(listed(bytes), key);
    lemma_without_holds(listed(bytes), key);
}

/// The file begins with the header that the store writes.
pub open spec fn standard_header(bytes: Seq<u8>) -> bool {
    csv_read(bytes).0.len() > 0 && csv_read(bytes).0.first() == column_names()
}

/// The `csv` crate reads back a row that it wrote behind a text: it reads
/// the rows of the text, then the cells of the row, and comes to the end.
pub open spec fn csv_reads_appended(bytes: Seq<u8>, cells: Seq<Seq<char>>) -> bool {
    csv_write(cells) is Some && csv_read(bytes + csv_write(cells)->0) == (
        csv_read(bytes).0.push(cells),
        true,
    )
}

/// The rows of a file that holds the header and the given records.
pub open spec fn rows_of(records: Seq<RsvpModelView>) -> Seq<Seq<Seq<char>>> {
    seq![column_names()] + Seq::new(records.len(), |i: int| cells_of(records[i])->0)
}

/// The `csv` crate reads back a file that holds the header and the given
/// records: it reads the header, then the cells of each record, and comes to
/// the end.
pub open spec fn csv_reads_table(records: Seq<RsvpModelView>) -> bool {
    table_of(records) is Ok && csv_read(table_of(records)->Ok_0) == (rows_of(records), true)
}

/// `chrono` reads back the times of each record.
pub open spec fn times_read_back(records: Seq<RsvpModelView>) -> bool {
    forall|i: int|
        0 <= i < records.len() ==> time_reads_back((#[trigger] records[i]).created_at)
            && time_reads_back(records[i].updated_at)
}

/// A row written behind a file that begins with the header is read back as
/// one more record, provided that the `csv` crate reads the row back and
/// `chrono` the two times.
pub proof fn lemma_append_reads_back(bytes: Seq<u8>, record: RsvpModelView)
    requires
        records_in(bytes) is Ok,
        standard_header(bytes),
        time_reads_back(record.created_at),
        time_reads_back(record.updated_at),
        csv_reads_appended(bytes, cells_of(record)->0),
    ensures
        line_of(record) is Ok,
        records_in(bytes + line_of(record)->Ok_0) == Ok::<Seq<RsvpModelView>, ErrorView>(
            listed(bytes).push(record),
        ),
        standard_header(bytes + line_of(record)->Ok_0),
{
    lemma_row_reads_back(record);
    let cells = cells_of(record)->0;
    let rows = csv_read(bytes).0;
    let grown = rows.push(cells);
    assert(header_row(grown) == header_row(rows));
    assert(data_rows(grown) == data_rows(rows).push(cells));
    assert(data_rows(grown).drop_last() == data_rows(rows));
}

/// A file that holds the header and the given records is read back as these
/// records, provided that the `csv` crate reads the file back and `chrono`
/// the times.
pub proof fn lemma_table_reads_back(records: Seq<RsvpModelView>)
    requires
        csv_reads_table(records),
        times_read_back(records),
        forall|i: int| 0 <= i < records.len() ==> cells_of(#[trigger] records[i]) is Some,
    ensures
        records_in(table_of(records)->Ok_0) == Ok::<Seq<RsvpModelView>, ErrorView>(records),
        standard_header(table_of(records)->Ok_0),
{
    let rows = rows_of(records);
    let data = data_rows(rows);
    assert(header_row(rows) == column_names());
    assert(data.len() == records.len());
    assert forall|i: int| 0 <= i < data.len() implies record_of(column_names(), #[trigger] data[i])
        == Ok::<RsvpModelView, RowFault>(records[i]) by {
        assert(data[i] == rows[i + 1]);
        assert(data[i] == cells_of(records[i])->0);
        lemma_row_reads_back(records[i]);
    }
    lemma_decode_all_from_each(column_names(), data, records);
}

/// Where a table has bytes, each of its records has cells.
pub proof fn lemma_table_has_cells(records: Seq<RsvpModelView>)
    requires
        table_of(records) is Ok,
    ensures
        forall|i: int| 0 <= i < records.len() ==> cells_of(#[trigger] records[i]) is Some,
    decreases records.len(),
{
    if records.len() > 0 {
        lemma_table_has_cells(records.drop_last());
        assert forall|i: int| 0 <= i < records.len() implies cells_of(#[trigger] records[i]) is Some by {
            if i < records.len() - 1 {
                assert(records.drop_last()[i] == records[i]);
            } else {
                assert(records[i] == records.last());
            }
        }
    }
}

/// A successful `insert` into a file that begins with the header leaves a
/// file that reads back, provided that the `csv` crate reads the new row
/// back and `chrono` the time of the insertion.
pub proof fn lemma_insert_kept(bytes: Seq<u8>, params: AddParamsView, now: Timestamp)
    requires
        inserted(bytes, params, now).0 is Ok,
        standard_header(bytes),
        time_reads_back(now),
        csv_reads_appended(bytes, cells_of(created_from_add(params, now))->0),
    ensures
        insert_kept(bytes, params, now),
{
    lemma_append_reads_back(bytes, created_from_add(params, now));
}

/// A successful `remove` leaves a file that reads back, provided that the
/// `csv` crate reads back the file of the other guests' records and
/// `chrono` their times.
pub proof fn lemma_remove_kept(bytes: Seq<u8>, name: Seq<char>)
    requires
        removed(bytes, name).0 is Ok,
        first_named(listed(bytes), key_of(name)) is Some ==> csv_reads_table(
            without(listed(bytes), key_of(name)),
        ) && times_read_back(without(listed(bytes), key_of(name))),
    ensures
        remove_kept(bytes, name),
{
    let others = without(listed(bytes), key_of(name));
    if first_named(listed(bytes), key_of(name)) is Some {
        lemma_table_has_cells(others);
        lemma_table_reads_back(others);
    } else {
        lemma_without_absent(listed(bytes), key_of(name));
    }
}

/// A successful `upsert` leaves a file that reads back, provided that the
/// file begins with the header, that the `csv` crate reads back the file of
/// the other guests' records, where the guest was on the list, and the new
/// row behind it, and that `chrono` reads back the times of all these
/// records.
pub proof fn lemma_upsert_kept(bytes: Seq<u8>, params: RsvpParamsView, now: Timestamp)
    requires
        upserted(bytes, params, now).0 is Ok,
        standard_header(bytes),
        first_named(listed(bytes), key_of(params.name)) is Some ==> csv_reads_table(
            without(listed(bytes), key_of(params.name)),
        ) && times_read_back(without(listed(bytes), key_of(params.name))),
        time_reads_back(upserted(bytes, params, now).0->Ok_0.created_at),
        time_reads_back(now),
        csv_reads_appended(
            removed(bytes, params.name).1,
            cells_of(upserted(bytes, params, now).0->Ok_0)->0,
        ),
    ensures
        upsert_kept(bytes, params, now),
{
    lemma_remove_kept(bytes, params.name);
    let others = without(listed(bytes), key_of(params.name));
    if first_named(listed(bytes), key_of(params.name)) is Some {
        lemma_table_has_cells(others);
        lemma_table_reads_back(others);
    }
    lemma_append_reads_back(removed(bytes, params.name).1, upserted(bytes, params, now).0->Ok_0);
}

} // verus!
