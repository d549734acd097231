//! Rows of cells and the records that they stand for.
//!
//! A file begins with a header row that names the columns. A data row holds
//! one cell under each name; the cells are found by the names, in whatever
//! order the header gives them, and columns of other names are passed over.
use crate::clock::{format_time, parse_time, rfc3339_instant, rfc3339_text};
use crate::error::RowFault;
use crate::model::{RsvpModel, RsvpModelView, Timestamp};
use crate::text::same_text;
use vstd::prelude::*;

verus! {

/// The header row as the store writes it, without the line end.
pub const HEADER_LINE: &'static str =
    "name,email,attending,attending_secondary,attending_tertiary,meal_choice,dietary_restrictions,plus_one_attending,plus_one_name,plus_one_meal_choice,plus_one_dietary_restrictions,comments,created_at,updated_at";

/// The number of columns of a record.
pub const COLUMNS: usize = 14;

/// The names of the columns, in the order of a record's fields.
pub open spec fn column_names() -> Seq<Seq<char>> {
    seq![
        "name"@,
        "email"@,
        "attending"@,
        "attending_secondary"@,
        "attending_tertiary"@,
        "meal_choice"@,
        "dietary_restrictions"@,
        "plus_one_attending"@,
        "plus_one_name"@,
        "plus_one_meal_choice"@,
        "plus_one_dietary_restrictions"@,
        "comments"@,
        "created_at"@,
        "updated_at"@,
    ]
}

/// The name of the column of the field number `k`.
pub fn column_name(k: usize) -> (r: &'static str)
    requires
        k < COLUMNS,
    ensures
        r@ == column_names()[k as int],
{
    if k == 0 {
        "name"
    } else if k == 1 {
        "email"
    } else if k == 2 {
        "attending"
    } else if k == 3 {
        "attending_secondary"
    } else if k == 4 {
        "attending_tertiary"
    } else if k == 5 {
        "meal_choice"
    } else if k == 6 {
        "dietary_restrictions"
    } else if k == 7 {
        "plus_one_attending"
    } else if k == 8 {
        "plus_one_name"
    } else if k == 9 {
        "plus_one_meal_choice"
    } else if k == 10 {
        "plus_one_dietary_restrictions"
    } else if k == 11 {
        "comments"
    } else if k == 12 {
        "created_at"
    } else {
        "updated_at"
    }
}

/// The cell that stands for a flag.
pub open spec fn flag_text(flag: bool) -> Seq<char> {
    if flag {
        "true"@
    } else {
        "false"@
    }
}

/// The flag that a cell stands for: `true` and `false` are flags, written
/// exactly so, and nothing else is.
pub open spec fn flag_of(text: Seq<char>) -> Option<bool> {
    if text == "true"@ {
        Some(true)
    } else if text == "false"@ {
        Some(false)
    } else {
        None
    }
}

/// The time that a cell stands for.
pub open spec fn time_of(text: Seq<char>) -> Option<Timestamp> {
    match rfc3339_instant(text) {
        Some((secs, nanos)) => Some(Timestamp { secs, nanos }),
        None => None,
    }
}

/// The cell that stands for a time, where the time has one.
pub open spec fn time_text(time: Timestamp) -> Option<Seq<char>> {
    rfc3339_text(time.secs, time.nanos)
}

/// The cells of a record, in the order of its fields; `None` where one of its
/// times has no text.
pub open spec fn cells_of(record: RsvpModelView) -> Option<Seq<Seq<char>>> {
    if time_text(record.created_at) is Some && time_text(record.updated_at) is Some {
        Some(
            seq![
                record.name,
                record.email,
                flag_text(record.attending),
                flag_text(record.attending_secondary),
                flag_text(record.attending_tertiary),
                record.meal_choice,
                record.dietary_restrictions,
                flag_text(record.plus_one_attending),
                record.plus_one_name,
                record.plus_one_meal_choice,
                record.plus_one_dietary_restrictions,
                record.comments,
                time_text(record.created_at)->0,
                time_text(record.updated_at)->0,
            ],
        )
    } else {
        None
    }
}

/// The record that fourteen cells in the order of its fields stand for. Any
/// other number of cells is a fault of the columns, and a cell that is no
/// flag is found before a cell that is no time.
pub open spec fn record_from(cells: Seq<Seq<char>>) -> Result<RsvpModelView, RowFault> {
    if cells.len() != COLUMNS {
        Err(RowFault::Columns)
    } else if flag_of(cells[2]) is None || flag_of(cells[3]) is None || flag_of(cells[4]) is None
        || flag_of(cells[7]) is None {
        Err(RowFault::Flag)
    } else if time_of(cells[12]) is None || time_of(cells[13]) is None {
        Err(RowFault::Time)
    } else {
        Ok(
            RsvpModelView {
                name: cells[0],
                email: cells[1],
                attending: flag_of(cells[2])->0,
                attending_secondary: flag_of(cells[3])->0,
                attending_tertiary: flag_of(cells[4])->0,
                meal_choice: cells[5],
                dietary_restrictions: cells[6],
                plus_one_attending: flag_of(cells[7])->0,
                plus_one_name: cells[8],
                plus_one_meal_choice: cells[9],
                plus_one_dietary_restrictions: cells[10],
                comments: cells[11],
                created_at: time_of(cells[12])->0,
                updated_at: time_of(cells[13])->0,
            },
        )
    }
}

/// `i` is the one place at which the header holds `name`.
pub open spec fn names_once(header: Seq<Seq<char>>, name: Seq<char>, i: int) -> bool {
    &&& 0 <= i < header.len()
    &&& header[i] == name
    &&& forall|j: int| 0 <= j < header.len() && #[trigger] header[j] == name ==> j == i
}

/// The place of the column `name`: the one place at which the header holds
/// the name, and none where the header holds it twice or not at all.
pub open spec fn column_of(header: Seq<Seq<char>>, name: Seq<char>) -> Option<int> {
    if exists|i: int| names_once(header, name, i) {
        Some(choose|i: int| names_once(header, name, i))
    } else {
        None
    }
}

/// The cell of a row under the column of the field number `k`.
pub open spec fn cell_at(header: Seq<Seq<char>>, row: Seq<Seq<char>>, k: int) -> Option<Seq<char>> {
    match column_of(header, column_names()[k]) {
        Some(i) => if i < row.len() {
            Some(row[i])
        } else {
            None
        },
        None => None,
    }
}

/// The fourteen cells of a row in the order of a record's fields, where the
/// row has them all.
pub open spec fn picked(header: Seq<Seq<char>>, row: Seq<Seq<char>>) -> Option<Seq<Seq<char>>> {
    if forall|k: int| 0 <= k < COLUMNS ==> (#[trigger] cell_at(header, row, k)) is Some {
        Some(Seq::new(COLUMNS as nat, |k: int| cell_at(header, row, k)->0))
    } else {
        None
    }
}

/// The record that a data row stands for under a header.
#[verifier::opaque]
pub open spec fn record_of(header: Seq<Seq<char>>, row: Seq<Seq<char>>) -> Result<
    RsvpModelView,
    RowFault,
> {
    match picked(header, row) {
        Some(cells) => record_from(cells),
        None => Err(RowFault::Columns),
    }
}

/// The time is one that `chrono` reads back from the text it writes of it.
pub open spec fn time_reads_back(time: Timestamp) -> bool {
    time_text(time) is Some && time_of(time_text(time)->0) == Some(time)
}

/// The flag that the text of a flag stands for is that flag.
pub proof fn lemma_flag_reads_back(flag: bool)
    ensures
        flag_of(flag_text(flag)) == Some(flag),
{
    reveal_strlit("true");
    reveal_strlit("false");
    assert("true"@.len() != "false"@.len());
}

/// No two columns have the same name: under the names of the columns in
/// their order, each column stands at its own place.
pub proof fn lemma_own_places()
    ensures
        column_names().len() == COLUMNS,
        forall|k: int| 0 <= k < COLUMNS ==> #[trigger] place_of(column_names(), k) == Some(k),
{
    reveal_strlit("name");
    reveal_strlit("email");
    reveal_strlit("attending");
    reveal_strlit("attending_secondary");
    reveal_strlit("attending_tertiary");
    reveal_strlit("meal_choice");
    reveal_strlit("dietary_restrictions");
    reveal_strlit("plus_one_attending");
    reveal_strlit("plus_one_name");
    reveal_strlit("plus_one_meal_choice");
    reveal_strlit("plus_one_dietary_restrictions");
    reveal_strlit("comments");
    reveal_strlit("created_at");
    reveal_strlit("updated_at");
    let names = column_names();
    assert(names[4][0] != names[7][0]);
    assert(names[6][0] != names[9][0]);
    assert(names[12][0] != names[13][0]);
    assert forall|i: int, j: int| 0 <= i < j < COLUMNS implies names[i] != names[j] by {
        if names[i].len() == names[j].len() {
            assert(names[i][0] != names[j][0]);
        }
    }
    assert forall|k: int| 0 <= k < COLUMNS implies #[trigger] place_of(names, k) == Some(k) by {
        assert(names_once(names, names[k], k));
        let found = choose|i: int| names_once(names, names[k], i);
        assert(found == k);
    }
}

/// Under the header that the store writes, the row of a record stands for
/// the record, provided that the two times of the record read back.
pub proof fn lemma_row_reads_back(record: RsvpModelView)
    requires
        time_reads_back(record.created_at),
        time_reads_back(record.updated_at),
    ensures
        cells_of(record) is Some,
        record_of(column_names(), cells_of(record)->0) == Ok::<RsvpModelView, RowFault>(record),
{
    reveal(record_of);
    lemma_own_places();
    let header = column_names();
    let cells = cells_of(record)->0;
    assert forall|k: int| 0 <= k < COLUMNS implies #[trigger] cell_at(header, cells, k) == Some(
        cells[k],
    ) by {
        assert(place_of(header, k) == Some(k));
    }
    assert(picked(header, cells)->0 =~= cells);
    lemma_flag_reads_back(record.attending);
    lemma_flag_reads_back(record.attending_secondary);
    lemma_flag_reads_back(record.attending_tertiary);
    lemma_flag_reads_back(record.plus_one_attending);
}

/// The text of a flag.
pub fn format_flag(flag: bool) -> (r: String)
    ensures
        r@ == flag_text(flag),
{
    if flag {
        "true".to_string()
    } else {
        "false".to_string()
    }
}

/// The flag that a text stands for.
pub fn parse_flag(text: &str) -> (r: Option<bool>)
    ensures
        r == flag_of(text@),
{
    if same_text(text, "true") {
        Some(true)
    } else if same_text(text, "false") {
        Some(false)
    } else {
        None
    }
}

/// The cells of a record, in the order of its fields.
pub fn encode(record: &RsvpModel) -> (r: Result<Vec<String>, RowFault>)
    ensures
        match r {
            Ok(cells) => cells_of(record@) == Some(cells.deep_view()),
            Err(fault) => cells_of(record@) is None && fault == RowFault::Time,
        },
{
    let created = match format_time(record.created_at) {
        Some(text) => text,
        None => { return Err(RowFault::Time); },
    };
    let updated = match format_time(record.updated_at) {
        Some(text) => text,
        None => { return Err(RowFault::Time); },
    };
    let mut cells: Vec<String> = Vec::new();
    cells.push(record.name.clone());
    cells.push(record.email.clone());
    cells.push(format_flag(record.attending));
    cells.push(format_flag(record.attending_secondary));
    cells.push(format_flag(record.attending_tertiary));
    cells.push(record.meal_choice.clone());
    cells.push(record.dietary_restrictions.clone());
    cells.push(format_flag(record.plus_one_attending));
    cells.push(record.plus_one_name.clone());
    cells.push(record.plus_one_meal_choice.clone());
    cells.push(record.plus_one_dietary_restrictions.clone());
    cells.push(record.comments.clone());
    cells.push(created);
    cells.push(updated);
    assert(cells.deep_view() =~= cells_of(record@)->0);
    Ok(cells)
}

/// The record that fourteen cells stand for.
pub fn decode_cells(cells: &Vec<String>) -> (r: Result<RsvpModel, RowFault>)
    ensures
        match r {
            Ok(record) => record_from(cells.deep_view()) == Ok::<RsvpModelView, RowFault>(record@),
            Err(fault) => record_from(cells.deep_view()) == Err::<RsvpModelView, RowFault>(fault),
        },
{
    let ghost view = cells.deep_view();
    if cells.len() != COLUMNS {
        return Err(RowFault::Columns);
    }
    assert(forall|k: int| 0 <= k < COLUMNS ==> view[k] == cells@[k]@);
    let attending = parse_flag(cells[2].as_str());
    let attending_secondary = parse_flag(cells[3].as_str());
    let attending_tertiary = parse_flag(cells[4].as_str());
    let plus_one_attending = parse_flag(cells[7].as_str());
    if attending.is_none() || attending_secondary.is_none() || attending_tertiary.is_none()
        || plus_one_attending.is_none() {
        return Err(RowFault::Flag);
    }
    let created_at = parse_time(cells[12].as_str());
    let updated_at = parse_time(cells[13].as_str());
    if created_at.is_none() || updated_at.is_none() {
        return Err(RowFault::Time);
    }
    Ok(
        RsvpModel {
            name: cells[0].clone(),
            email: cells[1].clone(),
            attending: attending.unwrap(),
            attending_secondary: attending_secondary.unwrap(),
            attending_tertiary: attending_tertiary.unwrap(),
            meal_choice: cells[5].clone(),
            dietary_restrictions: cells[6].clone(),
            plus_one_attending: plus_one_attending.unwrap(),
            plus_one_name: cells[8].clone(),
            plus_one_meal_choice: cells[9].clone(),
            plus_one_dietary_restrictions: cells[10].clone(),
            comments: cells[11].clone(),
            created_at: created_at.unwrap(),
            updated_at: updated_at.unwrap(),
        },
    )
}

/// The place at which a header holds `name`, if it holds it exactly once.
pub fn find_column(header: &Vec<String>, name: &str) -> (r: Option<usize>)
    ensures
        match r {
            Some(i) => column_of(header.deep_view(), name@) == Some(i as int),
            None => column_of(header.deep_view(), name@) is None,
        },
{
    let ghost names = header.deep_view();
    let mut found: Option<usize> = None;
    let mut j: usize = 0;
    while j < header.len()
        invariant
            j <= header@.len(),
            names == header.deep_view(),
            match found {
                Some(i) => i < j && names[i as int] == name@ && forall|m: int|
                    0 <= m < j && #[trigger] names[m] == name@ ==> m == i,
                None => forall|m: int| 0 <= m < j ==> #[trigger] names[m] != name@,
            },
        decreases header@.len() - j,
    {
        if same_text(header[j].as_str(), name) {
            match found {
                Some(i) => {
                    assert(names[i as int] == name@ && names[j as int] == name@);
                    assert forall|m: int| !names_once(names, name@, m) by {
                        if names_once(names, name@, m) {
                            assert(i as int == m);
                            assert(j as int == m);
                        }
                    }
                    return None;
                },
                None => {
                    found = Some(j);
                },
            }
        }
        j = j + 1;
    }
    match found {
        Some(i) => {
            assert(names_once(names, name@, i as int));
        },
        None => {
            assert forall|m: int| !names_once(names, name@, m) by {}
        },
    }
    found
}

/// The place of the column of the field number `k`.
pub open spec fn place_of(header: Seq<Seq<char>>, k: int) -> Option<int> {
    column_of(header, column_names()[k])
}

/// Where the columns of a record stand under a header.
pub struct Layout {
    places: Option<Vec<usize>>,
    header: Ghost<Seq<Seq<char>>>,
}

impl Layout {
    /// The header that the layout was made from.
    pub closed spec fn header(&self) -> Seq<Seq<char>> {
        self.header@
    }

    /// The layout holds the place of each column, or none where some column
    /// has no place.
    #[verifier::type_invariant]
    closed spec fn wf(&self) -> bool {
        match self.places {
            Some(places) => places@.len() == COLUMNS && forall|k: int|
                0 <= k < COLUMNS ==> #[trigger] place_of(self.header@, k) == Some(
                    places@[k] as int,
                ),
            None => exists|k: int| 0 <= k < COLUMNS && (#[trigger] place_of(self.header@, k)) is None,
        }
    }

    /// The layout of the rows under `header`.
    pub fn of(header: &Vec<String>) -> (r: Layout)
        ensures
            r.header() == header.deep_view(),
    {
        let ghost names = header.deep_view();
        let mut places: Vec<usize> = Vec::new();
        let mut k: usize = 0;
        while k < COLUMNS
            invariant
                k <= COLUMNS,
                names == header.deep_view(),
                places@.len() == k,
                forall|m: int| 0 <= m < k ==> #[trigger] place_of(names, m) == Some(places@[m] as int),
            decreases COLUMNS - k,
        {
            match find_column(header, column_name(k)) {
                Some(i) => {
                    places.push(i);
                },
                None => {
                    assert(place_of(names, k as int) is None);
                    return Layout { places: None, header: Ghost(names) };
                },
            }
            k = k + 1;
        }
        Layout { places: Some(places), header: Ghost(names) }
    }

    /// The record that a data row stands for.
    pub fn decode(&self, row: &Vec<String>) -> (r: Result<RsvpModel, RowFault>)
        ensures
            match r {
                Ok(record) => record_of(self.header(), row.deep_view()) == Ok::<
                    RsvpModelView,
                    RowFault,
                >(record@),
                Err(fault) => record_of(self.header(), row.deep_view()) == Err::<
                    RsvpModelView,
                    RowFault,
                >(fault),
            },
    {
        let ghost header = self.header@;
        let ghost line = row.deep_view();
        reveal(record_of);
        proof {
            use_type_invariant(self);
        }
        match &self.places {
            None => {
                let ghost k = choose|k: int| 0 <= k < COLUMNS && (#[trigger] place_of(header, k)) is None;
                assert(cell_at(header, line, k) is None);
                Err(RowFault::Columns)
            },
            Some(places) => {
                let mut cells: Vec<String> = Vec::new();
                let mut k: usize = 0;
                while k < COLUMNS
                    invariant
                        k <= COLUMNS,
                        header == self.header(),
                        line == row.deep_view(),
                        places@.len() == COLUMNS,
                        forall|m: int|
                            0 <= m < COLUMNS ==> #[trigger] place_of(header, m) == Some(
                                places@[m] as int,
                            ),
                        cells@.len() == k,
                        forall|m: int|
                            0 <= m < k ==> #[trigger] cell_at(header, line, m) == Some(cells@[m]@),
                    decreases COLUMNS - k,
                {
                    let i = places[k];
                    assert(place_of(header, k as int) == Some(i as int));
                    if i >= row.len() {
                        reveal(record_of);
                        assert(cell_at(header, line, k as int) is None);
                        return Err(RowFault::Columns);
                    }
                    cells.push(row[i].clone());
                    assert(line[i as int] == row@[i as int]@);
                    k = k + 1;
                }
                assert(cells.deep_view() =~= picked(header, line)->0);
                decode_cells(&cells)
            },
        }
    }
}

} // verus!
