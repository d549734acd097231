//! The guest list as a sequence of records: who answers to a query, who goes
//! when a name is removed, and how many heads the records count.
use crate::model::{Attendance, RsvpModel, RsvpModelView};
use crate::text::{key_of, piece_key};
use vstd::prelude::*;

verus! {

/// A record answers to a key by the name of the guest or by the name of the
/// companion: the key of either name, trimmed and in lower case as the
/// pieces of a query are, is the key asked for.
pub open spec fn answers_to(record: RsvpModelView, key: Seq<char>) -> bool {
    key_of(record.name) == key || key_of(record.plus_one_name) == key
}

/// A record answers to one of the keys.
pub open spec fn answers_any(record: RsvpModelView, keys: Seq<Seq<char>>) -> bool {
    exists|k: int| 0 <= k < keys.len() && answers_to(record, #[trigger] keys[k])
}

/// The first record that answers to one of the keys.
pub open spec fn lookup(records: Seq<RsvpModelView>, keys: Seq<Seq<char>>) -> Option<
    RsvpModelView,
>
    decreases records.len(),
{
    if records.len() == 0 {
        None
    } else if answers_any(records.first(), keys) {
        Some(records.first())
    } else {
        lookup(records.drop_first(), keys)
    }
}

/// A record is the one of the guest `key`: the key of the guest's name,
/// trimmed and in lower case, is the key. The companion's name does not
/// count here.
pub open spec fn is_named(record: RsvpModelView, key: Seq<char>) -> bool {
    key_of(record.name) == key
}

/// The first record of the guest `key`.
pub open spec fn first_named(records: Seq<RsvpModelView>, key: Seq<char>) -> Option<
    RsvpModelView,
>
    decreases records.len(),
{
    if records.len() == 0 {
        None
    } else if is_named(records.first(), key) {
        Some(records.first())
    } else {
        first_named(records.drop_first(), key)
    }
}

/// The records of all guests but `key`, in their order.
pub open spec fn without(records: Seq<RsvpModelView>, key: Seq<char>) -> Seq<RsvpModelView> {
    records.filter(|record: RsvpModelView| !is_named(record, key))
}

/// No two records are of the same guest: the names of any two differ in
/// more than case and the white space around them.
pub open spec fn distinct_names(records: Seq<RsvpModelView>) -> bool {
    forall|i: int, j: int|
        0 <= i < j < records.len() ==> key_of(#[trigger] records[i].name) != key_of(
            #[trigger] records[j].name,
        )
}

/// Whether the guest of a record comes to the part `tier` of the event: 0 is
/// the main part, 1 the second, anything else the third.
pub open spec fn attends(record: RsvpModelView, tier: nat) -> bool {
    if tier == 0 {
        record.attending
    } else if tier == 1 {
        record.attending_secondary
    } else {
        record.attending_tertiary
    }
}

/// The heads that a record brings to a part of the event: two where the
/// guest comes and the companion is coming, one where the guest comes
/// alone, none where the guest does not come.
pub open spec fn heads(record: RsvpModelView, tier: nat) -> nat {
    if attends(record, tier) {
        if record.plus_one_attending {
            2
        } else {
            1
        }
    } else {
        0
    }
}

/// The heads that all records bring to a part of the event.
pub open spec fn head_count(records: Seq<RsvpModelView>, tier: nat) -> nat
    decreases records.len(),
{
    if records.len() == 0 {
        0
    } else {
        head_count(records.drop_last(), tier) + heads(records.last(), tier)
    }
}

/// A count as a `u32` can hold it: counts beyond the largest `u32` stop
/// there.
pub open spec fn capped(count: nat) -> u32 {
    if count > u32::MAX {
        u32::MAX
    } else {
        count as u32
    }
}

/// The head counts of the three parts of the event.
pub open spec fn tally(records: Seq<RsvpModelView>) -> Attendance {
    Attendance {
        attending: capped(head_count(records, 0)),
        attending_secondary: capped(head_count(records, 1)),
        attending_tertiary: capped(head_count(records, 2)),
    }
}

/// A record behind the list is found only where the list has none that
/// answers.
pub proof fn lemma_lookup_push(records: Seq<RsvpModelView>, last: RsvpModelView, keys: Seq<Seq<char>>)
    ensures
        lookup(records.push(last), keys) == match lookup(records, keys) {
            Some(found) => Some(found),
            None => if answers_any(last, keys) {
                Some(last)
            } else {
                None
            },
        },
    decreases records.len(),
{
    if records.len() == 0 {
        assert(records.push(last).drop_first() == records);
    } else {
        assert(records.push(last).first() == records.first());
        assert(records.push(last).drop_first() == records.drop_first().push(last));
        lemma_lookup_push(records.drop_first(), last, keys);
    }
}

/// A record behind the list is the first of its guest only where the list
/// has none of that guest.
pub proof fn lemma_first_named_push(records: Seq<RsvpModelView>, last: RsvpModelView, key: Seq<char>)
    ensures
        first_named(records.push(last), key) == match first_named(records, key) {
            Some(found) => Some(found),
            None => if is_named(last, key) {
                Some(last)
            } else {
                None
            },
        },
    decreases records.len(),
{
    if records.len() == 0 {
        assert(records.push(last).drop_first() == records);
    } else {
        assert(records.push(last).first() == records.first());
        assert(records.push(last).drop_first() == records.drop_first().push(last));
        lemma_first_named_push(records.drop_first(), last, key);
    }
}

/// What `lookup` finds is a record of the list that answers, and no record
/// before it does; it finds nothing only where no record answers.
pub proof fn lemma_lookup_is_first(records: Seq<RsvpModelView>, keys: Seq<Seq<char>>)
    ensures
        match lookup(records, keys) {
            Some(found) => exists|i: int|
                0 <= i < records.len() && #[trigger] records[i] == found && answers_any(found, keys)
                    && forall|j: int| 0 <= j < i ==> !answers_any(#[trigger] records[j], keys),
            None => forall|j: int| 0 <= j < records.len() ==> !answers_any(#[trigger] records[j], keys),
        },
    decreases records.len(),
{
    if records.len() == 0 {
    } else if answers_any(records.first(), keys) {
        assert(records[0] == records.first());
    } else {
        let rest = records.drop_first();
        lemma_lookup_is_first(rest, keys);
        match lookup(rest, keys) {
            Some(found) => {
                let i = choose|i: int|
                    0 <= i < rest.len() && #[trigger] rest[i] == found && answers_any(found, keys)
                        && forall|j: int| 0 <= j < i ==> !answers_any(#[trigger] rest[j], keys);
                assert(records[i + 1] == found);
                assert forall|j: int| 0 <= j < i + 1 implies !answers_any(
                    #[trigger] records[j],
                    keys,
                ) by {
                    if j > 0 {
                        assert(records[j] == rest[j - 1]);
                    }
                }
            },
            None => {
                assert forall|j: int| 0 <= j < records.len() implies !answers_any(
                    #[trigger] records[j],
                    keys,
                ) by {
                    if j > 0 {
                        assert(records[j] == rest[j - 1]);
                    }
                }
            },
        }
    }
}

/// What `first_named` finds is a record of the guest, and no record before
/// it is; it finds nothing only where the guest has no record.
pub proof fn lemma_first_named_is_first(records: Seq<RsvpModelView>, key: Seq<char>)
    ensures
        match first_named(records, key) {
            Some(found) => exists|i: int|
                0 <= i < records.len() && #[trigger] records[i] == found && is_named(found, key)
                    && forall|j: int| 0 <= j < i ==> !is_named(#[trigger] records[j], key),
            None => forall|j: int| 0 <= j < records.len() ==> !is_named(#[trigger] records[j], key),
        },
    decreases records.len(),
{
    if records.len() == 0 {
    } else if is_named(records.first(), key) {
        assert(records[0] == records.first());
    } else {
        let rest = records.drop_first();
        lemma_first_named_is_first(rest, key);
        match first_named(rest, key) {
            Some(found) => {
                let i = choose|i: int|
                    0 <= i < rest.len() && #[trigger] rest[i] == found && is_named(found, key)
                        && forall|j: int| 0 <= j < i ==> !is_named(#[trigger] rest[j], key);
                assert(records[i + 1] == found);
                assert forall|j: int| 0 <= j < i + 1 implies !is_named(#[trigger] records[j], key) by {
                    if j > 0 {
                        assert(records[j] == rest[j - 1]);
                    }
                }
            },
            None => {
                assert forall|j: int| 0 <= j < records.len() implies !is_named(
                    #[trigger] records[j],
                    key,
                ) by {
                    if j > 0 {
                        assert(records[j] == rest[j - 1]);
                    }
                }
            },
        }
    }
}

/// Taking a guest off a list that does not hold the guest changes nothing.
pub proof fn lemma_without_absent(records: Seq<RsvpModelView>, key: Seq<char>)
    requires
        first_named(records, key) is None,
    ensures
        without(records, key) == records,
    decreases records.len(),
{
    lemma_first_named_is_first(records, key);
    let keep = |record: RsvpModelView| !is_named(record, key);
    reveal(Seq::filter);
    if records.len() > 0 {
        let front = records.drop_last();
        assert forall|j: int| 0 <= j < front.len() implies !is_named(#[trigger] front[j], key) by {
            assert(front[j] == records[j]);
        }
        lemma_first_named_is_first(front, key);
        lemma_without_absent(front, key);
        assert(!is_named(records.last(), key));
        assert(front.push(records.last()) == records);
    }
}

/// After a guest is taken off the list, the list holds no record of the
/// guest, every record that it holds was there before, and taking the guest
/// off once more changes nothing.
pub proof fn lemma_without_holds(records: Seq<RsvpModelView>, key: Seq<char>)
    ensures
        first_named(without(records, key), key) is None,
        forall|i: int|
            0 <= i < without(records, key).len() ==> !is_named(
                #[trigger] without(records, key)[i],
                key,
            ) && records.contains(without(records, key)[i]),
        without(records, key).len() <= records.len(),
        without(without(records, key), key) == without(records, key),
    decreases records.len(),
{
    reveal(Seq::filter);
    let rest = without(records, key);
    if records.len() > 0 {
        let front = records.drop_last();
        let kept = without(front, key);
        lemma_without_holds(front, key);
        assert forall|i: int| 0 <= i < rest.len() implies !is_named(#[trigger] rest[i], key)
            && records.contains(rest[i]) by {
            if i < kept.len() {
                assert(rest[i] == kept[i]);
                assert(front.contains(kept[i]));
                let m = choose|m: int| 0 <= m < front.len() && front[m] == kept[i];
                assert(records[m] == kept[i]);
            } else {
                assert(records[records.len() - 1] == rest[i]);
            }
        }
    }
    lemma_first_named_is_first(rest, key);
    lemma_without_absent(rest, key);
}

/// A record put behind the list stays exactly where it is not of the guest
/// that is taken off.
pub proof fn lemma_without_push(records: Seq<RsvpModelView>, last: RsvpModelView, key: Seq<char>)
    ensures
        without(records.push(last), key) == if is_named(last, key) {
            without(records, key)
        } else {
            without(records, key).push(last)
        },
{
    reveal(Seq::filter);
    assert(records.push(last).drop_last() == records);
}

/// Where no two records are of the same guest, taking a guest off the list
/// who is on it makes the list shorter by one record.
pub proof fn lemma_without_one(records: Seq<RsvpModelView>, key: Seq<char>)
    requires
        distinct_names(records),
        first_named(records, key) is Some,
    ensures
        without(records, key).len() == records.len() - 1,
    decreases records.len(),
{
    reveal(Seq::filter);
    lemma_first_named_is_first(records, key);
    let front = records.drop_last();
    assert forall|i: int, j: int| 0 <= i < j < front.len() implies key_of(
        #[trigger] front[i].name,
    ) != key_of(#[trigger] front[j].name) by {
        assert(front[i] == records[i] && front[j] == records[j]);
    }
    lemma_first_named_is_first(front, key);
    if is_named(records.last(), key) {
        assert forall|j: int| 0 <= j < front.len() implies !is_named(#[trigger] front[j], key) by {
            assert(front[j] == records[j]);
            assert(records[records.len() - 1] == records.last());
        }
        assert(first_named(front, key) is None);
        lemma_without_absent(front, key);
    } else {
        let found = first_named(records, key)->0;
        let i = choose|i: int|
            0 <= i < records.len() && #[trigger] records[i] == found && is_named(found, key)
                && forall|j: int| 0 <= j < i ==> !is_named(#[trigger] records[j], key);
        assert(i < front.len());
        assert(front[i] == records[i]);
        assert(first_named(front, key) is Some);
        lemma_without_one(front, key);
    }
}

/// Taking a guest off a list in which no two records are of the same guest
/// leaves such a list, and so does putting a record behind a list that
/// holds none of that guest.
pub proof fn lemma_distinct_kept(records: Seq<RsvpModelView>, key: Seq<char>, last: RsvpModelView)
    requires
        distinct_names(records),
        is_named(last, key),
    ensures
        distinct_names(without(records, key)),
        distinct_names(without(records, key).push(last)),
    decreases records.len(),
{
    reveal(Seq::filter);
    let rest = without(records, key);
    if records.len() == 0 {
        assert(rest.len() == 0);
    } else {
        let front = records.drop_last();
        assert forall|i: int, j: int| 0 <= i < j < front.len() implies key_of(
            #[trigger] front[i].name,
        ) != key_of(#[trigger] front[j].name) by {
            assert(front[i] == records[i] && front[j] == records[j]);
        }
        lemma_distinct_kept(front, key, last);
        lemma_without_holds(front, key);
        let kept = without(front, key);
        if !is_named(records.last(), key) {
            assert(rest == kept.push(records.last()));
            assert forall|i: int, j: int| 0 <= i < j < rest.len() implies key_of(
                #[trigger] rest[i].name,
            ) != key_of(#[trigger] rest[j].name) by {
                if j == rest.len() - 1 {
                    assert(front.contains(kept[i]));
                    let m = choose|m: int| 0 <= m < front.len() && front[m] == kept[i];
                    assert(records[m] == kept[i]);
                    assert(records[records.len() - 1] == rest[j]);
                } else {
                    assert(rest[i] == kept[i] && rest[j] == kept[j]);
                }
            }
        } else {
            assert(rest == kept);
        }
    }
    lemma_without_holds(records, key);
    lemma_first_named_is_first(rest, key);
    let grown = rest.push(last);
    assert forall|i: int, j: int| 0 <= i < j < grown.len() implies key_of(
        #[trigger] grown[i].name,
    ) != key_of(#[trigger] grown[j].name) by {
        if j == grown.len() - 1 {
            assert(grown[i] == rest[i]);
            assert(!is_named(rest[i], key));
        } else {
            assert(grown[i] == rest[i] && grown[j] == rest[j]);
        }
    }
}

/// Whether a record answers to one of the keys.
pub fn answers(record: &RsvpModel, keys: &Vec<String>) -> (r: bool)
    ensures
        r == answers_any(record@, keys.deep_view()),
{
    let name = piece_key(record.name.as_str());
    let plus_one_name = piece_key(record.plus_one_name.as_str());
    let ghost wanted = keys.deep_view();
    let mut k: usize = 0;
    while k < keys.len()
        invariant
            k <= keys@.len(),
            wanted == keys.deep_view(),
            name@ == key_of(record@.name),
            plus_one_name@ == key_of(record@.plus_one_name),
            forall|m: int| 0 <= m < k ==> !answers_to(record@, #[trigger] wanted[m]),
        decreases keys@.len() - k,
    {
        assert(wanted[k as int] == keys@[k as int]@);
        if name == keys[k] || plus_one_name == keys[k] {
            assert(answers_to(record@, wanted[k as int]));
            return true;
        }
        k = k + 1;
    }
    false
}

/// Whether a record is the one of the guest `key`.
pub fn named(record: &RsvpModel, key: &String) -> (r: bool)
    ensures
        r == is_named(record@, key@),
{
    let name = piece_key(record.name.as_str());
    name == *key
}

/// The first record of the guest `key`, if there is one.
pub fn pick_named(records: &Vec<RsvpModel>, key: &String) -> (r: Option<RsvpModel>)
    ensures
        match r {
            Some(record) => first_named(records.deep_view(), key@) == Some(record@),
            None => first_named(records.deep_view(), key@) is None,
        },
{
    let ghost all = records.deep_view();
    let mut i: usize = 0;
    proof {
        assert(all.skip(0) == all);
    }
    while i < records.len()
        invariant
            i <= records@.len(),
            all == records.deep_view(),
            first_named(all, key@) == first_named(all.skip(i as int), key@),
        decreases records@.len() - i,
    {
        proof {
            assert(all.skip(i as int).first() == records@[i as int]@);
            assert(all.skip(i as int).drop_first() == all.skip(i + 1));
        }
        if named(&records[i], key) {
            return Some(records[i].clone());
        }
        i = i + 1;
    }
    proof {
        assert(all.skip(i as int).len() == 0);
    }
    None
}

/// Parts the list in the first record of the guest `key`, if there is one,
/// and the records of all other guests.
pub fn split_named(records: Vec<RsvpModel>, key: &String) -> (r: (Option<RsvpModel>, Vec<RsvpModel>))
    ensures
        match r.0 {
            Some(record) => first_named(records.deep_view(), key@) == Some(record@),
            None => first_named(records.deep_view(), key@) is None,
        },
        r.1.deep_view() == without(records.deep_view(), key@),
{
    let ghost all = records.deep_view();
    let ghost keep = |record: RsvpModelView| !is_named(record, key@);
    let n = records.len();
    let mut first: Option<RsvpModel> = None;
    let mut others: Vec<RsvpModel> = Vec::new();
    let mut i: usize = 0;
    proof {
        assert(all.take(0) == Seq::<RsvpModelView>::empty());
        assert(others.deep_view() =~= all.take(0).filter(keep));
        assert(all.skip(0) == all);
    }
    for record in it: records
        invariant
            i == it.index(),
            n == records@.len(),
            it.seq() == records@,
            all == records.deep_view(),
            keep == |record: RsvpModelView| !is_named(record, key@),
            others.deep_view() == all.take(i as int).filter(keep),
            match first {
                Some(found) => first_named(all, key@) == Some(found@),
                None => first_named(all, key@) == first_named(all.skip(i as int), key@),
            },
    {
        proof {
            assert(all[i as int] == record@);
            assert(all.take(i + 1).drop_last() == all.take(i as int));
            assert(all.skip(i as int).first() == record@);
            assert(all.skip(i as int).drop_first() == all.skip(i + 1));
            reveal(Seq::filter);
        }
        if named(&record, key) {
            if first.is_none() {
                first = Some(record);
            }
        } else {
            let ghost before = others.deep_view();
            others.push(record);
            assert(others.deep_view() =~= before.push(record@));
        }
        i = i + 1;
    }
    proof {
        assert(all.take(i as int) == all);
        assert(all.skip(i as int).len() == 0);
    }
    (first, others)
}

/// The head counts of the three parts of the event.
pub fn count_heads(records: &Vec<RsvpModel>) -> (r: Attendance)
    ensures
        r == tally(records.deep_view()),
{
    let ghost all = records.deep_view();
    let mut attendance = Attendance::default();
    let mut i: usize = 0;
    proof {
        assert(all.take(0) == Seq::<RsvpModelView>::empty());
    }
    while i < records.len()
        invariant
            i <= records@.len(),
            all == records.deep_view(),
            attendance == tally(all.take(i as int)),
        decreases records@.len() - i,
    {
        let record = &records[i];
        proof {
            assert(all[i as int] == record@);
            assert(all.take(i + 1).drop_last() == all.take(i as int));
            assert(all.take(i + 1).last() == record@);
        }
        let number_attending: u32 = if record.plus_one_attending {
            2
        } else {
            1
        };
        if record.attending {
            attendance.attending = attendance.attending.saturating_add(number_attending);
        }
        if record.attending_secondary {
            attendance.attending_secondary = attendance.attending_secondary.saturating_add(
                number_attending,
            );
        }
        if record.attending_tertiary {
            attendance.attending_tertiary = attendance.attending_tertiary.saturating_add(
                number_attending,
            );
        }
        i = i + 1;
    }
    proof {
        assert(all.take(i as int) == all);
    }
    attendance
}

} // verus!
