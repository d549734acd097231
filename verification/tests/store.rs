use actix_web_rsvp::csvdb::{encode_line, encode_table, header_line, CsvDb};
use actix_web_rsvp::error::{Error, RowFault};
use actix_web_rsvp::file::FileBuf;
use actix_web_rsvp::model::{AddParams, Attendance, RsvpModel, RsvpParams, Timestamp};
use actix_web_rsvp::row::HEADER_LINE;

const T0: Timestamp = Timestamp { secs: 1_700_000_000, nanos: 0 };
const T1: Timestamp = Timestamp { secs: 1_700_000_060, nanos: 250_000_000 };

fn store_at(time: Timestamp) -> CsvDb {
    let mut db = CsvDb::new_with_time(FileBuf::new(), time);
    db.add_header();
    db
}

fn store_on(text: &str) -> CsvDb {
    CsvDb::new_with_time(FileBuf::from_bytes(text.as_bytes().to_vec()), T0)
}

fn add(name: &str, plus_one_name: &str) -> AddParams {
    AddParams {
        name: name.to_string(),
        email: format!("{}@example.org", name.trim().to_lowercase()),
        plus_one_name: plus_one_name.to_string(),
    }
}

fn answer(name: &str, attending: bool, plus_one_attending: bool) -> RsvpParams {
    RsvpParams {
        name: name.to_string(),
        email: "guest@example.org".to_string(),
        attending,
        attending_secondary: false,
        attending_tertiary: true,
        meal_choice: "Fish".to_string(),
        dietary_restrictions: "None".to_string(),
        plus_one_attending,
        plus_one_name: "".to_string(),
        plus_one_meal_choice: "Meat".to_string(),
        plus_one_dietary_restrictions: "".to_string(),
        comments: "".to_string(),
    }
}

#[test]
fn insert_then_get_in_any_case_and_with_white_space() {
    let mut db = store_at(T0);
    db.insert(&add("Mallory", "Trent")).unwrap();
    let model = db.insert(&add("Élodie Dupont", "Zoë")).unwrap();
    for query in ["Élodie Dupont", "élodie dupont", "ÉLODIE DUPONT", "  Élodie Dupont\t", "\nÉLODIE dupont "] {
        assert_eq!(db.get(query).unwrap(), Some(model.clone()));
    }
}

#[test]
fn insert_twice_is_refused_and_changes_nothing() {
    let mut db = store_at(T0);
    let params = add("Alice", "Bob");
    let model = db.insert(&params).unwrap();
    let before = db.dump();
    db.update_time(T1);
    match db.insert(&params) {
        Err(Error::Add(refused)) => assert_eq!(refused, params),
        other => panic!("expected a refusal, got {:?}", other),
    }
    assert_eq!(db.dump(), before);
    assert_eq!(db.get_all().unwrap(), vec![model]);
    assert_eq!(db.file.position(), db.file.len());
}

#[test]
fn insert_is_not_refused_for_the_name_of_a_companion() {
    let mut db = store_at(T0);
    let alice = db.insert(&add("Alice", "Johnson")).unwrap();
    let johnson = db.insert(&add("Johnson", "")).unwrap();
    assert_eq!(db.get_all().unwrap(), vec![alice.clone(), johnson.clone()]);
    assert_eq!(db.find("johnson").unwrap(), Some(johnson));
    assert_eq!(db.get("johnson").unwrap(), Some(alice));
    assert!(matches!(db.insert(&add(" JOHNSON ", "x")), Err(Error::Add(_))));
}

#[test]
fn insert_is_not_refused_for_a_piece_of_its_name() {
    let mut db = store_at(T0);
    let alice = db.insert(&add("Alice", "")).unwrap();
    let both = db.insert(&add("Alice & Bob", "")).unwrap();
    assert_eq!(db.get_all().unwrap(), vec![alice, both]);
}

#[test]
fn find_takes_the_name_whole_and_does_not_look_at_companions() {
    let mut db = store_at(T0);
    let both = db.insert(&add("Alice & Bob", "Carol")).unwrap();
    let bob = db.insert(&add("Bob", "Dave")).unwrap();
    assert_eq!(db.find(" alice & bob\n").unwrap(), Some(both));
    assert_eq!(db.find("BOB").unwrap(), Some(bob));
    assert_eq!(db.find("alice").unwrap(), None);
    assert_eq!(db.find("carol").unwrap(), None);
    assert_eq!(db.find("Bob & Alice").unwrap(), None);
    assert_eq!(db.file.position(), db.file.len());
}

#[test]
fn a_name_written_with_white_space_around_it_is_found_and_kept() {
    let mut db = store_at(T0);
    let model = db.insert(&add(" John ", "\tJane\n")).unwrap();
    assert_eq!(model.name, " John ");
    for query in [" John ", "John", "john", "\nJOHN  ", "jane", " Jane & nobody"] {
        assert_eq!(db.get(query).unwrap(), Some(model.clone()), "{:?}", query);
    }
    let before = db.dump();
    for name in [" John ", "John", "  JOHN", "john\n"] {
        assert!(matches!(db.insert(&add(name, "other")), Err(Error::Add(_))), "{:?}", name);
    }
    assert_eq!(db.dump(), before);
    assert_eq!(db.get_all().unwrap(), vec![model.clone()]);
    assert_eq!(db.remove("john").unwrap(), Some(model));
    assert_eq!(db.get_all().unwrap(), vec![]);
}

#[test]
fn insert_under_the_same_key_is_refused_whatever_else_it_holds() {
    let mut db = store_at(T0);
    let first = db.insert(&add("Alice", "Bob")).unwrap();
    let before = db.dump();
    let again = AddParams {
        name: " ALICE\n".to_string(),
        email: "other@example.org".to_string(),
        plus_one_name: "Carol".to_string(),
    };
    db.update_time(T1);
    match db.insert(&again) {
        Err(Error::Add(refused)) => assert_eq!(refused, again),
        other => panic!("expected a refusal, got {:?}", other),
    }
    assert_eq!(db.dump(), before);
    assert_eq!(db.get_all().unwrap(), vec![first]);
}

#[test]
fn no_two_records_bear_names_of_one_key() {
    let mut db = store_at(T0);
    db.insert(&add("Ann", "")).unwrap();
    db.insert(&add(" ann", "x")).unwrap_err();
    db.upsert(&answer("ANN ", true, false)).unwrap();
    db.upsert(&answer("Ben\n", true, false)).unwrap();
    db.upsert(&answer("ben", false, false)).unwrap();
    db.insert(&add("BEN", "y")).unwrap_err();
    let all = db.get_all().unwrap();
    let keys: Vec<String> = all.iter().map(|record| record.name.trim().to_lowercase()).collect();
    assert_eq!(keys, vec!["ann", "ben"]);
    let names: Vec<&str> = all.iter().map(|record| record.name.as_str()).collect();
    assert_eq!(names, vec!["Ann", "Ben\n"]);
}

#[test]
fn a_name_with_an_ampersand_is_kept_once_though_get_parts_it() {
    let mut db = store_at(T0);
    let model = db.insert(&add("Alice & Bob", "")).unwrap();
    let before = db.dump();
    for name in ["Alice & Bob", " alice & bob ", "ALICE & BOB"] {
        assert!(matches!(db.insert(&add(name, "x")), Err(Error::Add(_))), "{:?}", name);
    }
    assert_eq!(db.dump(), before);
    assert_eq!(db.get_all().unwrap(), vec![model.clone()]);
    assert_eq!(db.get("Alice & Bob").unwrap(), None);
    db.update_time(T1);
    let merged = db.upsert(&answer("alice & bob", true, true)).unwrap();
    assert_eq!(merged.name, "Alice & Bob");
    assert_eq!(db.get_all().unwrap(), vec![merged.clone()]);
    assert_eq!(db.remove("Alice & Bob").unwrap(), Some(merged));
}

#[test]
fn upsert_twice_keeps_creation_and_refreshes_change() {
    let mut db = store_at(T0);
    db.upsert(&answer("Other", false, false)).unwrap();
    let params = answer("Carol", true, true);
    let once = db.upsert(&params).unwrap();
    assert_eq!(once.created_at, T0);
    assert_eq!(once.updated_at, T0);
    db.update_time(T1);
    let twice = db.upsert(&params).unwrap();
    assert_eq!(twice.created_at, T0);
    assert_eq!(twice.updated_at, T1);
    let all = db.get_all().unwrap();
    assert_eq!(all.len(), 2);
    assert_eq!(all[1], twice);
    assert_eq!(all.iter().filter(|record| record.name == "Carol").count(), 1);
}

#[test]
fn upsert_of_the_only_record_keeps_the_header() {
    let mut db = store_at(T0);
    let params = answer("Carol", true, false);
    db.upsert(&params).unwrap();
    db.update_time(T1);
    let twice = db.upsert(&params).unwrap();
    assert_eq!(db.get_all().unwrap(), vec![twice]);
    assert!(db.dump().starts_with(HEADER_LINE));
}

#[test]
fn upsert_of_distinct_names_counts_each_and_moves_a_known_one_to_the_end() {
    let mut db = store_at(T0);
    let names = ["Ann", "Ben", "Cid", "Dee", "Eve"];
    for (count, name) in names.iter().enumerate() {
        db.upsert(&answer(name, true, false)).unwrap();
        assert_eq!(db.get_all().unwrap().len(), count + 1);
    }
    db.update_time(T1);
    db.upsert(&answer("Cid", false, true)).unwrap();
    let all = db.get_all().unwrap();
    let listed: Vec<&str> = all.iter().map(|record| record.name.as_str()).collect();
    assert_eq!(listed, vec!["Ann", "Ben", "Dee", "Eve", "Cid"]);
    assert_eq!(all[4].created_at, T0);
    assert_eq!(all[4].updated_at, T1);
    db.upsert(&answer(" ben ", false, false)).unwrap();
    let all = db.get_all().unwrap();
    let listed: Vec<&str> = all.iter().map(|record| record.name.as_str()).collect();
    assert_eq!(listed, vec!["Ann", "Dee", "Eve", "Cid", "Ben"]);
}

#[test]
fn upsert_under_another_case_merges_into_the_record_of_the_guest() {
    let mut db = store_at(T0);
    for n in 0..2 {
        db.upsert(&answer(&format!("John-{}", n), true, true)).unwrap();
    }
    db.update_time(T1);
    let params = RsvpParams {
        name: "john-0".to_string(),
        email: "".to_string(),
        attending: false,
        attending_secondary: false,
        attending_tertiary: false,
        meal_choice: "Fish".to_string(),
        dietary_restrictions: "".to_string(),
        plus_one_attending: false,
        plus_one_name: "".to_string(),
        plus_one_meal_choice: "".to_string(),
        plus_one_dietary_restrictions: "".to_string(),
        comments: "".to_string(),
    };
    let record = db.upsert(&params).unwrap();
    assert_eq!(record.name, "John-0");
    assert_eq!(record.created_at, T0);
    assert_eq!(record.updated_at, T1);
    assert_eq!(record.meal_choice, "Fish");
    assert_eq!(record.plus_one_meal_choice, "Meat");
    assert!(!record.attending);
    let all = db.get_all().unwrap();
    assert_eq!(all.len(), 2);
    assert_eq!(all[0].name, "John-1");
    assert_eq!(all[1], record);
    assert_eq!(db.file.position(), db.file.len());
}

#[test]
fn upsert_twice_under_a_name_that_ends_in_a_line_end_keeps_one_record() {
    let mut db = CsvDb::default();
    db.upsert(&answer("Other", true, false)).unwrap();
    let params = answer("newline\n", true, true);
    let once = db.upsert(&params).unwrap();
    assert_eq!(db.get_all().unwrap().len(), 2);
    let twice = db.upsert(&params).unwrap();
    let all = db.get_all().unwrap();
    assert_eq!(all.len(), 2);
    assert_eq!(all[1], twice);
    assert_eq!(twice.name, "newline\n");
    assert_eq!(twice.created_at, once.created_at);
}

#[test]
fn upsert_merges_into_the_record() {
    let mut db = store_at(T0);
    db.insert(&add("Ann", "Bob")).unwrap();
    db.update_time(T1);
    let first = db.upsert(&answer("Ann", true, true)).unwrap();
    assert_eq!(first.created_at, T0);
    assert_eq!(first.updated_at, T1);
    assert_eq!(first.meal_choice, "Fish");
    assert_eq!(first.plus_one_meal_choice, "Meat");
    assert_eq!(first.plus_one_name, "");
    let mut blank = answer("Ann", false, false);
    blank.email = "".to_string();
    blank.meal_choice = "".to_string();
    blank.dietary_restrictions = "".to_string();
    blank.plus_one_meal_choice = "".to_string();
    let second = db.upsert(&blank).unwrap();
    assert_eq!(second.email, "");
    assert_eq!(second.meal_choice, "Fish");
    assert_eq!(second.dietary_restrictions, "");
    assert_eq!(second.plus_one_meal_choice, "Meat");
    assert!(!second.attending);
}

#[test]
fn remove_of_an_absent_name_changes_nothing() {
    let mut db = store_at(T0);
    db.upsert(&answer("Ann", true, false)).unwrap();
    db.upsert(&answer("Ben", true, false)).unwrap();
    let before = db.get_all().unwrap();
    let text = db.dump();
    assert_eq!(db.remove("Cid").unwrap(), None);
    assert_eq!(db.get_all().unwrap(), before);
    assert_eq!(db.dump(), text);
    assert_eq!(db.file.position(), db.file.len());
}

#[test]
fn remove_of_a_present_name_hands_back_its_record() {
    let mut db = store_at(T0);
    let ann = db.upsert(&answer("Ann", true, false)).unwrap();
    let ben = db.upsert(&answer("Ben", true, true)).unwrap();
    let cid = db.upsert(&answer("Cid", false, false)).unwrap();
    assert_eq!(db.remove("  BEN ").unwrap(), Some(ben));
    assert_eq!(db.get_all().unwrap(), vec![ann, cid]);
    assert_eq!(db.file.position(), db.file.len());
}

#[test]
fn remove_does_not_go_by_the_name_of_a_companion() {
    let mut db = store_at(T0);
    db.insert(&add("Alice", "Bob")).unwrap();
    assert_eq!(db.remove("Bob").unwrap(), None);
    assert_eq!(db.remove("Alice & Bob").unwrap(), None);
    assert_eq!(db.get_all().unwrap().len(), 1);
}

#[test]
fn remove_takes_every_record_of_the_guest() {
    let row = "Ann,a@example.org,true,false,false,,,false,,,,,2020-01-01T00:00:00Z,2020-01-01T00:00:00Z\n";
    let mut db = store_on(&format!("{}\n{}{}", HEADER_LINE, row, row.replace("true", "false")));
    let removed = db.remove("ann").unwrap().unwrap();
    assert!(removed.attending);
    assert_eq!(db.get_all().unwrap(), vec![]);
    assert_eq!(db.dump(), format!("{}\n", HEADER_LINE));
}

#[test]
fn attendance_counts_two_for_a_guest_with_a_companion() {
    let mut db = store_at(T0);
    db.upsert(&answer("Ann", true, true)).unwrap();
    db.upsert(&answer("Ben", true, false)).unwrap();
    db.upsert(&answer("Cid", false, true)).unwrap();
    assert_eq!(
        db.attendance().unwrap(),
        Attendance { attending: 3, attending_secondary: 0, attending_tertiary: 5 }
    );
}

#[test]
fn fields_with_commas_newlines_and_quotes_come_back_unchanged() {
    let mut db = store_at(T0);
    let mut params = answer("newline\nand,comma", true, false);
    params.email = "\"quoted\" <a@example.org>".to_string();
    params.comments = "line one\r\nline two, with \"quotes\"\n".to_string();
    params.dietary_restrictions = " leading and trailing ".to_string();
    let written = db.upsert(&params).unwrap();
    let all = db.get_all().unwrap();
    assert_eq!(all, vec![written]);
    assert_eq!(all[0].name, "newline\nand,comma");
    assert_eq!(all[0].email, params.email);
    assert_eq!(all[0].comments, params.comments);
    assert_eq!(all[0].dietary_restrictions, params.dietary_restrictions);
}

#[test]
fn get_takes_each_name_of_a_joint_query() {
    let mut db = store_at(T0);
    let carol = db.insert(&add("carol", "dave")).unwrap();
    let alice = db.insert(&add("alice", "zed")).unwrap();
    let yves = db.insert(&add("yves", "bob")).unwrap();
    assert_eq!(db.get("Alice & Bob").unwrap(), Some(alice.clone()));
    assert_eq!(db.get("Bob & Alice").unwrap(), Some(alice));
    assert_eq!(db.get("Bob").unwrap(), Some(yves));
    assert_eq!(db.get("nobody&DAVE&alice").unwrap(), Some(carol));
    assert_eq!(db.get("Alice Bob").unwrap(), None);
    assert_eq!(db.file.position(), db.file.len());
}

#[test]
fn get_with_an_empty_piece_finds_an_empty_name() {
    let mut db = store_at(T0);
    let ann = db.insert(&add("Ann", "")).unwrap();
    assert_eq!(db.get("").unwrap(), Some(ann.clone()));
    assert_eq!(db.get("Zed &").unwrap(), Some(ann));
}

#[test]
fn dump_gives_the_rows_as_the_csv_crate_writes_them() {
    let mut db = store_at(Timestamp { secs: 0, nanos: 0 });
    db.upsert(&RsvpParams {
        name: "Smith, John".to_string(),
        email: "".to_string(),
        attending: true,
        attending_secondary: false,
        attending_tertiary: true,
        meal_choice: "say \"fish\"".to_string(),
        dietary_restrictions: "a\nb".to_string(),
        plus_one_attending: false,
        plus_one_name: "".to_string(),
        plus_one_meal_choice: "".to_string(),
        plus_one_dietary_restrictions: "".to_string(),
        comments: "ok".to_string(),
    })
    .unwrap();
    assert_eq!(
        db.dump(),
        format!(
            "{}\n\"Smith, John\",,true,false,true,\"say \"\"fish\"\"\",\"a\nb\",false,,,,ok,1970-01-01T00:00:00Z,1970-01-01T00:00:00Z\n",
            HEADER_LINE
        )
    );
    assert_eq!(db.contents(), Some(db.dump()));
}

#[test]
fn contents_are_missing_where_the_file_is_not_text() {
    let mut db = CsvDb::new_with_time(FileBuf::from_bytes(vec![0x66, 0xff, 0x6f]), T0);
    assert_eq!(db.contents(), None);
    assert_eq!(db.file.position(), 3);
}

#[test]
fn header_line_is_the_header_and_a_line_end() {
    assert_eq!(header_line(), format!("{}\n", HEADER_LINE).into_bytes());
    let mut db = CsvDb::default();
    assert_eq!(db.dump(), format!("{}\n", HEADER_LINE));
    assert_eq!(db.file.position(), HEADER_LINE.len() + 1);
    assert_eq!(db.get_all().unwrap(), vec![]);
}

#[test]
fn add_header_writes_over_the_start_of_the_file() {
    let mut db = store_on(&"x".repeat(HEADER_LINE.len() + 5));
    db.add_header();
    assert_eq!(db.dump(), format!("{}\nxxxx", HEADER_LINE));
    let mut db = store_on("short");
    db.add_header();
    assert_eq!(db.dump(), format!("{}\n", HEADER_LINE));
}

#[test]
fn new_takes_the_time_of_the_call() {
    let mut db = CsvDb::new(FileBuf::new());
    db.add_header();
    let model = db.insert(&add("Ann", "")).unwrap();
    assert!(model.created_at.secs > 1_600_000_000);
    assert!(model.created_at.nanos < 2_000_000_000);
    assert_eq!(model.created_at, db.datetime);
    assert_eq!(model.updated_at, db.datetime);
}

#[test]
fn encode_line_and_table_give_the_bytes_of_the_rows() {
    let record = RsvpModel::new_with_add(&add("Ann", "Bob"), Timestamp { secs: 86_400, nanos: 5 });
    let line = "Ann,ann@example.org,false,false,false,,,false,Bob,,,,1970-01-02T00:00:00.000000005Z,1970-01-02T00:00:00.000000005Z\n";
    assert_eq!(encode_line(&record).unwrap(), line.as_bytes());
    assert_eq!(
        encode_table(&vec![record.clone(), record]).unwrap(),
        format!("{}\n{}{}", HEADER_LINE, line, line).into_bytes()
    );
}

#[test]
fn an_answer_that_cannot_be_written_leaves_the_record_of_the_guest() {
    let mut db = store_at(T0);
    let ann = db.upsert(&answer("Ann", true, false)).unwrap();
    let ben = db.upsert(&answer("Ben", true, false)).unwrap();
    let before = db.dump();
    db.update_time(Timestamp { secs: i64::MAX, nanos: 0 });
    assert!(matches!(db.upsert(&answer("Ann", false, true)), Err(Error::Row(RowFault::Time))));
    assert!(matches!(db.upsert(&answer("Cid", false, true)), Err(Error::Row(RowFault::Time))));
    assert_eq!(db.dump(), before);
    assert_eq!(db.get_all().unwrap(), vec![ann, ben]);
    assert_eq!(db.file.position(), db.file.len());
}

#[test]
fn a_time_that_chrono_does_not_have_has_no_row() {
    let mut db = store_at(Timestamp { secs: i64::MAX, nanos: 0 });
    assert!(matches!(db.insert(&add("Ann", "")), Err(Error::Row(RowFault::Time))));
    assert!(matches!(db.upsert(&answer("Ann", true, true)), Err(Error::Row(RowFault::Time))));
    assert_eq!(db.dump(), format!("{}\n", HEADER_LINE));
    let mut db = store_at(Timestamp { secs: 0, nanos: 2_000_000_000 });
    assert!(matches!(db.insert(&add("Ann", "")), Err(Error::Row(RowFault::Time))));
}

#[test]
fn an_empty_file_holds_no_record() {
    let mut db = store_on("");
    assert_eq!(db.get_all().unwrap(), vec![]);
    assert_eq!(db.get("Ann").unwrap(), None);
    assert_eq!(db.remove("Ann").unwrap(), None);
    assert_eq!(db.attendance().unwrap(), Attendance::default());
    assert_eq!(db.dump(), "");
}

#[test]
fn the_first_row_is_the_header_whatever_it_holds() {
    let mut db = store_on("");
    db.insert(&add("Ann", "Bob")).unwrap();
    assert_eq!(db.get_all().unwrap(), vec![]);
    db.insert(&add("Ann", "Bob")).unwrap();
    assert!(matches!(db.get_all(), Err(Error::Row(RowFault::Columns))));
}

#[test]
fn columns_are_found_by_their_names() {
    let text = "\
updated_at,created_at,seat,comments,plus_one_dietary_restrictions,plus_one_meal_choice,plus_one_name,plus_one_attending,dietary_restrictions,meal_choice,attending_tertiary,attending_secondary,attending,email,name
2021-06-01T12:00:00Z,2020-01-01T00:00:00.5Z,12,c,pd,pm,pn,true,d,m,false,true,false,e,n
";
    let mut db = store_on(text);
    let all = db.get_all().unwrap();
    assert_eq!(
        all,
        vec![RsvpModel {
            name: "n".to_string(),
            email: "e".to_string(),
            attending: false,
            attending_secondary: true,
            attending_tertiary: false,
            meal_choice: "m".to_string(),
            dietary_restrictions: "d".to_string(),
            plus_one_attending: true,
            plus_one_name: "pn".to_string(),
            plus_one_meal_choice: "pm".to_string(),
            plus_one_dietary_restrictions: "pd".to_string(),
            comments: "c".to_string(),
            created_at: Timestamp { secs: 1_577_836_800, nanos: 500_000_000 },
            updated_at: Timestamp { secs: 1_622_548_800, nanos: 0 },
        }]
    );
    assert_eq!(
        db.attendance().unwrap(),
        Attendance { attending: 0, attending_secondary: 2, attending_tertiary: 0 }
    );
}

#[test]
fn a_time_with_an_offset_is_read_as_the_same_instant() {
    let text = format!(
        "{}\nAnn,,true,true,true,,,false,,,,,2020-01-01T01:00:00+01:00,2020-01-01 00:00:60Z\n",
        HEADER_LINE
    );
    let mut db = store_on(&text);
    let all = db.get_all().unwrap();
    assert_eq!(all[0].created_at, Timestamp { secs: 1_577_836_800, nanos: 0 });
    assert_eq!(all[0].updated_at, Timestamp { secs: 1_577_836_859, nanos: 1_000_000_000 });
}

#[test]
fn a_header_that_lacks_or_repeats_a_column_gives_no_record() {
    let lacking = HEADER_LINE.replace("comments", "remarks");
    let row = "Ann,,true,true,true,,,false,,,,,2020-01-01T00:00:00Z,2020-01-01T00:00:00Z\n";
    let mut db = store_on(&format!("{}\n", lacking));
    assert_eq!(db.get_all().unwrap(), vec![]);
    let mut db = store_on(&format!("{}\n{}", lacking, row));
    assert!(matches!(db.get_all(), Err(Error::Row(RowFault::Columns))));
    assert!(matches!(db.get("Ann"), Err(Error::Row(RowFault::Columns))));
    assert!(matches!(db.remove("Ann"), Err(Error::Row(RowFault::Columns))));
    assert!(matches!(db.attendance(), Err(Error::Row(RowFault::Columns))));
    assert!(matches!(db.insert(&add("Ben", "")), Err(Error::Row(RowFault::Columns))));
    assert!(matches!(db.upsert(&answer("Ben", true, true)), Err(Error::Row(RowFault::Columns))));
    assert_eq!(db.dump(), format!("{}\n{}", lacking, row));
    let repeating = HEADER_LINE.replace("comments", "email");
    let mut db = store_on(&format!("{}\n{}", repeating, row));
    assert!(matches!(db.get_all(), Err(Error::Row(RowFault::Columns))));
}

#[test]
fn a_flag_that_is_not_written_exactly_gives_no_record() {
    for flag in ["True", "1", "", " true", "yes", "FALSE"] {
        let text = format!(
            "{}\nAnn,,true,{},true,,,false,,,,,2020-01-01T00:00:00Z,2020-01-01T00:00:00Z\n",
            HEADER_LINE, flag
        );
        let mut db = store_on(&text);
        assert!(matches!(db.get_all(), Err(Error::Row(RowFault::Flag))), "{:?}", flag);
    }
}

#[test]
fn a_time_that_is_not_rfc_3339_gives_no_record() {
    for time in ["", "yesterday", "2020-01-01", "2020-13-01T00:00:00Z", "1577836800"] {
        let text = format!(
            "{}\nAnn,,true,true,true,,,false,,,,,2020-01-01T00:00:00Z,{}\n",
            HEADER_LINE, time
        );
        let mut db = store_on(&text);
        assert!(matches!(db.get_all(), Err(Error::Row(RowFault::Time))), "{:?}", time);
    }
    let text = format!("{}\nAnn,,maybe,true,true,,,false,,,,,never,never\n", HEADER_LINE);
    assert!(matches!(store_on(&text).get_all(), Err(Error::Row(RowFault::Flag))));
}

#[test]
fn a_row_of_another_length_is_an_error_of_the_csv_crate() {
    let good = "Ann,,true,true,true,,,false,,,,,2020-01-01T00:00:00Z,2020-01-01T00:00:00Z\n";
    let text = format!("{}\n{}Ben,too,short\n{}", HEADER_LINE, good, good);
    let mut db = store_on(&text);
    match db.get_all() {
        Err(Error::Csv(said)) => assert!(said.contains("fields"), "{}", said),
        other => panic!("expected an error of the csv crate, got {:?}", other),
    }
    assert!(matches!(db.attendance(), Err(Error::Csv(_))));
    assert!(matches!(db.remove("Ann"), Err(Error::Csv(_))));
    assert!(matches!(db.insert(&add("Cid", "")), Err(Error::Csv(_))));
    assert!(matches!(db.upsert(&answer("Cid", true, true)), Err(Error::Csv(_))));
    assert_eq!(db.dump(), text);
    assert_eq!(db.file.position(), db.file.len());
}

#[test]
fn bytes_that_are_not_text_are_an_error_of_the_csv_crate() {
    let mut bytes = format!("{}\n", HEADER_LINE).into_bytes();
    bytes.extend_from_slice(b"Ann\xff,,true,true,true,,,false,,,,,2020-01-01T00:00:00Z,2020-01-01T00:00:00Z\n");
    let mut db = CsvDb::new_with_time(FileBuf::from_bytes(bytes), T0);
    assert!(matches!(db.get_all(), Err(Error::Csv(_))));
}

#[test]
fn get_stops_at_the_first_record_that_answers() {
    let good = "Ann,,true,true,true,,,false,Bob,,,,2020-01-01T00:00:00Z,2020-01-01T00:00:00Z\n";
    let bad = "Cid,,perhaps,true,true,,,false,,,,,2020-01-01T00:00:00Z,2020-01-01T00:00:00Z\n";
    let mut db = store_on(&format!("{}\n{}{}Dee,short\n", HEADER_LINE, good, bad));
    assert_eq!(db.get("bob").unwrap().unwrap().name, "Ann");
    assert!(matches!(db.get("Cid"), Err(Error::Row(RowFault::Flag))));
    assert!(matches!(db.get_all(), Err(Error::Row(RowFault::Flag))));
    assert!(matches!(db.find("ann"), Err(Error::Row(RowFault::Flag))));
    assert!(matches!(db.insert(&add("ANN", "")), Err(Error::Row(RowFault::Flag))));
    let mut db = store_on(&format!("{}\n{}Dee,short\n", HEADER_LINE, good));
    assert_eq!(db.get("ann").unwrap().unwrap().name, "Ann");
    assert!(matches!(db.get("Dee"), Err(Error::Csv(_))));
}

#[test]
fn every_operation_leaves_the_cursor_at_the_end() {
    let mut db = store_at(T0);
    db.insert(&add("Ann", "")).unwrap();
    assert_eq!(db.file.position(), db.file.len());
    db.file.seek_start();
    db.get("Ann").unwrap();
    assert_eq!(db.file.position(), db.file.len());
    db.file.seek_start();
    db.get_all().unwrap();
    assert_eq!(db.file.position(), db.file.len());
    db.file.seek_start();
    db.attendance().unwrap();
    assert_eq!(db.file.position(), db.file.len());
    db.file.seek_start();
    db.upsert(&answer("Ben", true, true)).unwrap();
    assert_eq!(db.file.position(), db.file.len());
    db.file.seek_start();
    db.remove("Ann").unwrap();
    assert_eq!(db.file.position(), db.file.len());
    db.file.seek_start();
    db.dump();
    assert_eq!(db.file.position(), db.file.len());
    assert_eq!(db.get_all().unwrap().len(), 1);
}

#[test]
fn a_row_behind_text_without_a_line_end_is_not_read_back() {
    let text = format!(
        "{}\nAnn,,true,true,true,,,false,,,,,2020-01-01T00:00:00Z,2020-01-01T00:00:00Z",
        HEADER_LINE
    );
    let mut db = store_on(&text);
    assert_eq!(db.get_all().unwrap().len(), 1);
    let model = db.insert(&add("Ben", "")).unwrap();
    assert!(db.dump().starts_with(&text));
    assert_ne!(db.get("Ben").ok(), Some(Some(model)));
    assert!(db.get_all().is_err());
}
