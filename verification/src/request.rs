//! What the three requests of a guest do to the list.
use crate::csvdb::{found_in, inserted, outcome, upserted, CsvDb};
use crate::error::{Error, ErrorView};
use crate::model::{AddParams, NameParams, RsvpModel, RsvpModelView, RsvpParams, Timestamp};
use vstd::prelude::*;

verus! {

/// Whether the request names nobody: its name is empty. Such a request is
/// answered without the store.
pub fn names_nobody(params: &NameParams) -> (r: bool)
    ensures
        r == (params@.name.len() == 0),
{
    params.name.as_str().is_empty()
}

/// Looks a guest up. A request that names nobody finds nobody, and the
/// store is left as it is for it, the cursor too.
pub fn handle_fetch(db: &mut CsvDb, params: &NameParams) -> (r: Result<Option<RsvpModel>, Error>)
    ensures
        params@.name.len() == 0 ==> r is Ok && r->Ok_0 is None && *final(db) == *old(db),
        params@.name.len() > 0 ==> outcome(r) == found_in(old(db).file@.bytes, params@.name)
            && final(db).file@.pos == old(db).file@.bytes.len(),
        final(db).file@.bytes == old(db).file@.bytes,
        final(db).datetime == old(db).datetime,
{
    if names_nobody(params) {
        return Ok(None);
    }
    db.get(params.name.as_str())
}

/// Takes the answer of a guest at the time `now`: the answer is written as
/// `upsert` writes it. With the record comes the text of the whole file as
/// it then is, for the notice to the administrator; the text is missing
/// where the file is not UTF-8.
pub fn handle_rsvp(db: &mut CsvDb, params: &RsvpParams, now: Timestamp) -> (r: Result<
    (RsvpModel, Option<String>),
    Error,
>)
    ensures
        match r {
            Ok((record, contents)) => upserted(old(db).file@.bytes, params@, now).0 == Ok::<
                RsvpModelView,
                ErrorView,
            >(record@) && match contents {
                Some(text) => vstd::utf8::valid_utf8(final(db).file@.bytes) && text@
                    == vstd::utf8::decode_utf8(final(db).file@.bytes),
                None => !vstd::utf8::valid_utf8(final(db).file@.bytes),
            },
            Err(error) => upserted(old(db).file@.bytes, params@, now).0 == Err::<
                RsvpModelView,
                ErrorView,
            >(error@),
        },
        final(db).file@.bytes == upserted(old(db).file@.bytes, params@, now).1,
        final(db).file@.pos == final(db).file@.bytes.len(),
        final(db).datetime == now,
{
    db.update_time(now);
    match db.upsert(params) {
        Err(error) => Err(error),
        Ok(record) => {
            let contents = db.contents();
            Ok((record, contents))
        },
    }
}

/// Puts a guest on the list at the time `now`, as `insert` does.
pub fn handle_add(db: &mut CsvDb, params: &AddParams, now: Timestamp) -> (r: Result<RsvpModel, Error>)
    ensures
        outcome(r) == inserted(old(db).file@.bytes, params@, now).0,
        final(db).file@.bytes == inserted(old(db).file@.bytes, params@, now).1,
        final(db).file@.pos == final(db).file@.bytes.len(),
        final(db).datetime == now,
{
    db.update_time(now);
    db.insert(params)
}

} // verus!
