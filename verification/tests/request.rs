use actix_web_rsvp::csvdb::CsvDb;
use actix_web_rsvp::error::Error;
use actix_web_rsvp::model::{AddParams, NameParams, RsvpParams, Timestamp};
use actix_web_rsvp::request::{handle_add, handle_fetch, handle_rsvp, names_nobody};
use actix_web_rsvp::row::HEADER_LINE;

const NOON: Timestamp = Timestamp { secs: 1_700_000_000, nanos: 0 };

fn rsvp(n: usize) -> RsvpParams {
    RsvpParams {
        name: format!("John-{}", n),
        email: format!("john{}@john.john", n),
        attending: n % 2 == 0,
        attending_secondary: n % 3 == 0,
        attending_tertiary: n % 5 == 0,
        meal_choice: "Meat".to_string(),
        dietary_restrictions: "".to_string(),
        plus_one_attending: n % 2 == 0,
        plus_one_name: format!("Johnson-{}", n),
        plus_one_meal_choice: "Veggie".to_string(),
        plus_one_dietary_restrictions: "Vegetarian".to_string(),
        comments: format!("{} comments!", n),
    }
}

fn list_of(num: usize) -> CsvDb {
    let mut db = CsvDb::default();
    for n in 0..num {
        db.upsert(&rsvp(n)).unwrap();
    }
    db
}

fn name(text: &str) -> NameParams {
    NameParams { name: text.to_string() }
}

#[test]
fn fetch_finds_a_guest_and_a_companion_and_nobody_else() {
    let mut db = list_of(10);
    let records = db.get_all().unwrap();
    let found = handle_fetch(&mut db, &name(&records[0].name)).unwrap();
    assert_eq!(found, Some(records[0].clone()));
    let found = handle_fetch(&mut db, &name(&records[3].plus_one_name)).unwrap();
    assert_eq!(found, Some(records[3].clone()));
    assert_eq!(handle_fetch(&mut db, &name("something else")).unwrap(), None);
}

#[test]
fn only_an_empty_name_names_nobody() {
    assert!(names_nobody(&name("")));
    assert!(!names_nobody(&name(" ")));
    assert!(!names_nobody(&name("Ann")));
}

#[test]
fn fetch_of_an_empty_name_does_not_read_the_file() {
    let mut db = list_of(2);
    db.file.seek_start();
    assert_eq!(handle_fetch(&mut db, &name("")).unwrap(), None);
    assert_eq!(db.file.position(), 0);
    let mut broken = CsvDb::new_with_time(
        actix_web_rsvp::file::FileBuf::from_bytes(b"a,b\nc\n".to_vec()),
        NOON,
    );
    assert_eq!(handle_fetch(&mut broken, &name("")).unwrap(), None);
    assert!(matches!(handle_fetch(&mut broken, &name("x")), Err(Error::Csv(_))));
}

#[test]
fn add_puts_a_guest_on_the_list_once() {
    let mut db = CsvDb::default();
    let params = AddParams {
        name: "John".to_string(),
        email: "john@john.john".to_string(),
        plus_one_name: "Johnson".to_string(),
    };
    let model = handle_add(&mut db, &params, NOON).unwrap();
    assert_eq!(model.created_at, NOON);
    assert_eq!(db.datetime, NOON);
    let later = Timestamp { secs: NOON.secs + 1, nanos: 0 };
    assert!(matches!(handle_add(&mut db, &params, later), Err(Error::Add(_))));
    assert_eq!(db.datetime, later);
    assert_eq!(db.get_all().unwrap(), vec![model]);
}

#[test]
fn rsvp_hands_back_the_record_and_the_text_of_the_file() {
    let mut db = CsvDb::default();
    let (record, contents) = handle_rsvp(&mut db, &rsvp(4), NOON).unwrap();
    assert_eq!(record.name, "John-4");
    assert_eq!(record.updated_at, NOON);
    assert_eq!(
        contents.unwrap(),
        format!(
            "{}\nJohn-4,john4@john.john,true,false,false,Meat,,true,Johnson-4,Veggie,Vegetarian,4 comments!,2023-11-14T22:13:20Z,2023-11-14T22:13:20Z\n",
            HEADER_LINE
        )
    );
    let mut other = rsvp(4);
    other.name = "JOHN-4".to_string();
    other.comments = "again".to_string();
    let later = Timestamp { secs: NOON.secs + 60, nanos: 0 };
    let (record, contents) = handle_rsvp(&mut db, &other, later).unwrap();
    assert_eq!(record.name, "John-4");
    assert_eq!(record.comments, "again");
    assert_eq!(record.created_at, NOON);
    assert_eq!(record.updated_at, later);
    assert_eq!(contents.unwrap().lines().count(), 2);
}
