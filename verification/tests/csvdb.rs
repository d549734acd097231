use actix_web_rsvp::csvdb::CsvDb;
use actix_web_rsvp::file::FileBuf;
use actix_web_rsvp::model::{AddParams, Attendance, RsvpModel, RsvpParams, Timestamp};
use actix_web_rsvp::row::HEADER_LINE;
use chrono::{DateTime, Utc};

fn timestamp(datetime: DateTime<Utc>) -> Timestamp {
    Timestamp::new(datetime.timestamp(), datetime.timestamp_subsec_nanos())
}

fn test_add() -> AddParams {
    AddParams {
        name: "John".to_string(),
        email: "john@john.john".to_string(),
        plus_one_name: "Johnson".to_string(),
    }
}

fn test_rsvp() -> RsvpParams {
    RsvpParams {
        name: "John".to_string(),
        email: "john@john.john".to_string(),
        attending: true,
        attending_secondary: true,
        attending_tertiary: false,
        meal_choice: "Fish".to_string(),
        dietary_restrictions: "Yes".to_string(),
        plus_one_attending: true,
        plus_one_name: "Johnson".to_string(),
        plus_one_meal_choice: "Veggies".to_string(),
        plus_one_dietary_restrictions: "No".to_string(),
        comments: "Can't wait!".to_string(),
    }
}

fn test_rsvps(num: usize) -> Vec<RsvpParams> {
    (0..num)
        .map(|n| RsvpParams {
            name: format!("John-{}", n),
            email: format!("john{}@john.john", n),
            attending: n % 2 == 0,
            attending_secondary: n % 3 == 0,
            attending_tertiary: n % 5 == 0,
            meal_choice: "Meat".to_string(),
            dietary_restrictions: "".to_string(),
            plus_one_attending: n % 2 == 0,
            plus_one_name: format!("Johnson-{}", n),
            plus_one_meal_choice: "Veggie".to_string(),
            plus_one_dietary_restrictions: "Vegetarian".to_string(),
            comments: format!("{} comments!", n),
        })
        .collect()
}

#[test]
fn insert() {
    let datetime = Utc::now();
    let mut db = CsvDb::new_with_time(FileBuf::new(), timestamp(datetime));
    db.add_header();
    let add = test_add();
    let model = db.insert(&add).unwrap();

    let contents = db.dump();
    assert_eq!(
        format!(
            "{}\n{},{},{},{},{},{},{},{},{},{},{},{},{:?},{:?}\n",
            HEADER_LINE,
            model.name,
            model.email,
            model.attending,
            model.attending_secondary,
            model.attending_tertiary,
            model.meal_choice,
            model.dietary_restrictions,
            model.plus_one_attending,
            model.plus_one_name,
            model.plus_one_meal_choice,
            model.plus_one_dietary_restrictions,
            model.comments,
            datetime,
            datetime
        ),
        contents
    );

    let all_records = db.get_all().unwrap();
    assert_eq!(all_records.len(), 1);
    let test_record = RsvpModel::new_with_add(&add, timestamp(datetime));
    assert_eq!(all_records[0], test_record);
    assert!(db.remove(&add.name).unwrap().is_some());
    assert!(db.remove("Blah").unwrap().is_none());
    assert_eq!(db.attendance().unwrap(), Attendance::default());
}

#[test]
fn upsert_one() {
    let datetime = Utc::now();
    let mut db = CsvDb::new_with_time(FileBuf::new(), timestamp(datetime));
    db.add_header();
    let rsvp = test_rsvp();
    db.upsert(&rsvp).unwrap();

    let contents = db.dump();
    assert_eq!(
        format!(
            "{}\n{},{},{},{},{},{},{},{},{},{},{},{},{:?},{:?}\n",
            HEADER_LINE,
            rsvp.name,
            rsvp.email,
            rsvp.attending,
            rsvp.attending_secondary,
            rsvp.attending_tertiary,
            rsvp.meal_choice,
            rsvp.dietary_restrictions,
            rsvp.plus_one_attending,
            rsvp.plus_one_name,
            rsvp.plus_one_meal_choice,
            rsvp.plus_one_dietary_restrictions,
            rsvp.comments,
            datetime,
            datetime
        ),
        contents
    );

    let all_records = db.get_all().unwrap();
    assert_eq!(all_records.len(), 1);
    let test_record = RsvpModel::new_with_rsvp(&test_rsvp(), timestamp(datetime));
    assert_eq!(all_records[0], test_record);
    assert!(db.remove(&test_rsvp().name).unwrap().is_some());
    assert!(db.remove("Blah").unwrap().is_none());
    assert_eq!(db.attendance().unwrap(), Attendance::default());
}

#[test]
fn upsert() {
    let mut db = CsvDb::default();
    let num_test = 50;
    let rsvps = test_rsvps(50);
    for rsvp in rsvps {
        db.upsert(&rsvp).unwrap();
    }

    let all_records = db.get_all().unwrap();
    assert_eq!(all_records.len(), num_test);

    let test_index = num_test / 2;
    assert!(!all_records[test_index].attending);

    let updated = RsvpParams {
        name: format!("John-{}", test_index),
        email: "".to_string(),
        attending: true,
        attending_secondary: true,
        attending_tertiary: true,
        meal_choice: "".to_string(),
        dietary_restrictions: "".to_string(),
        plus_one_attending: false,
        plus_one_name: "".to_string(),
        plus_one_meal_choice: "".to_string(),
        plus_one_dietary_restrictions: "".to_string(),
        comments: "No comment.".to_string(),
    };
    db.upsert(&updated).unwrap();

    let all_records = db.get_all().unwrap();
    assert_eq!(all_records.len(), num_test);
    assert_eq!(all_records[num_test - 1].name, updated.name);
    assert_eq!(all_records[num_test - 1].attending, updated.attending);

    let mut attendance = Attendance::default();
    for record in all_records {
        let number_attending = if record.plus_one_attending { 2 } else { 1 };
        if record.attending {
            attendance.attending += number_attending;
        }
        if record.attending_secondary {
            attendance.attending_secondary += number_attending;
        }
        if record.attending_tertiary {
            attendance.attending_tertiary += number_attending;
        }
    }
    assert_eq!(db.attendance().unwrap(), attendance);
}

fn check_name(name: &str) {
    let mut db = CsvDb::default();
    db.upsert(&RsvpParams {
        name: name.to_string(),
        email: name.to_string(),
        attending: false,
        attending_secondary: true,
        attending_tertiary: true,
        meal_choice: "".to_string(),
        dietary_restrictions: "".to_string(),
        plus_one_attending: false,
        plus_one_name: "".to_string(),
        plus_one_meal_choice: "".to_string(),
        plus_one_dietary_restrictions: "".to_string(),
        comments: "No comment.".to_string(),
    })
    .unwrap();
    let all_records = db.get_all().unwrap();
    assert_eq!(all_records.len(), 1);
    assert_eq!(all_records[0].name, name);
}

#[test]
fn weird_chars() {
    check_name("comma,");
    check_name("newline\n");
    check_name("newline,and comma\n");
}

#[test]
fn get() {
    let datetime = Utc::now();
    let mut db = CsvDb::new_with_time(FileBuf::new(), timestamp(datetime));
    db.add_header();
    let rsvp = test_rsvp();
    db.upsert(&rsvp).unwrap();

    db.get(&rsvp.name.to_uppercase()).unwrap().unwrap();
    db.get(&format!(" {} ", rsvp.name)).unwrap().unwrap();
    db.get(&format!(" {} ", rsvp.plus_one_name))
        .unwrap()
        .unwrap();
    db.get(&format!(" {} & {} ", rsvp.name, rsvp.plus_one_name))
        .unwrap()
        .unwrap();
}
