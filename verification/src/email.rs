//! The two addresses that notices about the guest list go between.
use vstd::prelude::*;
use vstd::string::StringExecFns;

verus! {

/// The subject of the notice about a new answer.
pub const CSV_SUBJECT: &'static str = "New RSVP!";

/// The subject of the notice about an answer that could not be written.
pub const ERROR_SUBJECT: &'static str = "Error on RSVP";

/// The sender of the notices and the administrator who receives them.
#[derive(Debug)]
pub struct Email {
    pub from: String,
    pub admin: String,
}

impl Email {
    /// The sender `from` and the administrator `admin`.
    pub fn new(from: &str, admin: &str) -> (r: Email)
        ensures
            r.from@ == from@,
            r.admin@ == admin@,
    {
        Email { from: from.to_string(), admin: admin.to_string() }
    }
}

/// The text of the notice about a new answer: a line of greeting, then the
/// answer as it was given.
pub fn csv_body(rsvp: &str) -> (r: String)
    ensures
        r@ == "Success on new RSVP!\n"@ + rsvp@,
{
    "Success on new RSVP!\n".to_string().concat(rsvp)
}

/// The text of the notice about an answer that could not be written: a line
/// of advice, then the error and the answer as it was given.
pub fn error_body(error: &str, rsvp: &str) -> (r: String)
    ensures
        r@ == "Error on new RSVP, try to get in touch with them or put it in yourself.\nError: "@
            + error@ + "\nRSVP: "@ + rsvp@,
{
    "Error on new RSVP, try to get in touch with them or put it in yourself.\nError: ".to_string().concat(
        error,
    ).concat("\nRSVP: ").concat(rsvp)
}

impl Default for Email {
    fn default() -> (r: Email)
        ensures
            r.from@.len() == 0,
            r.admin@.len() == 0,
    {
        Email { from: String::new(), admin: String::new() }
    }
}

} // verus!
