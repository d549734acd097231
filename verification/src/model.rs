//! The records of the guest list and the parameters that create and change them.
use crate::error::{Error, ErrorView};
use crate::text::{key_of, piece_key};
use vstd::prelude::*;

verus! {

/// Number of photographs on the photo page.
pub const NUM_PHOTOS: usize = 1;

/// An instant in UTC: whole seconds since 1970-01-01T00:00:00Z, and the
/// nanoseconds past that second.
#[derive(Clone, Copy, Debug, PartialEq, Eq, Structural)]
pub struct Timestamp {
    pub secs: i64,
    pub nanos: u32,
}

impl Timestamp {
    /// `self` is not later than `other`.
    pub open spec fn spec_not_after(self, other: Timestamp) -> bool {
        self.secs < other.secs || (self.secs == other.secs && self.nanos <= other.nanos)
    }

    /// The instant `secs` seconds and `nanos` nanoseconds after the start of
    /// 1970 in UTC.
    pub fn new(secs: i64, nanos: u32) -> (r: Timestamp)
        ensures
            r == (Timestamp { secs, nanos }),
    {
        Timestamp { secs, nanos }
    }

    /// Whether `self` is not later than `other`.
    #[verifier::when_used_as_spec(spec_not_after)]
    pub fn not_after(self, other: Timestamp) -> (r: bool)
        ensures
            r == self.spec_not_after(other),
    {
        self.secs < other.secs || (self.secs == other.secs && self.nanos <= other.nanos)
    }
}

/// What the page that asks for a name shows of an earlier failure.
#[derive(Debug, PartialEq)]
pub struct ErrorContext {
    pub has_error: bool,
    pub error: String,
}

/// What the first page shows: the administrator's address.
#[derive(Debug, PartialEq)]
pub struct IndexContext {
    pub admin: String,
}

/// What the photo page shows: the administrator's address and the numbers of
/// the photographs.
#[derive(Debug, PartialEq)]
pub struct PhotosContext {
    pub admin: String,
    pub photo_indices: [usize; NUM_PHOTOS],
}

/// The name under which a guest is looked up.
#[derive(Debug, PartialEq)]
pub struct NameParams {
    pub name: String,
}

/// What is needed to put a guest on the list before any answer has come.
#[derive(Debug, PartialEq)]
pub struct AddParams {
    pub name: String,
    pub email: String,
    pub plus_one_name: String,
}

/// A guest's answer.
#[derive(Debug, PartialEq)]
pub struct RsvpParams {
    pub name: String,
    pub email: String,
    pub attending: bool,
    pub attending_secondary: bool,
    pub attending_tertiary: bool,
    pub meal_choice: String,
    pub dietary_restrictions: String,
    pub plus_one_attending: bool,
    pub plus_one_name: String,
    pub plus_one_meal_choice: String,
    pub plus_one_dietary_restrictions: String,
    pub comments: String,
}

/// One row of the guest list: the last answer of one guest, the time the row
/// was first written and the time it was last written.
#[derive(Debug, PartialEq)]
pub struct RsvpModel {
    pub name: String,
    pub email: String,
    pub attending: bool,
    pub attending_secondary: bool,
    pub attending_tertiary: bool,
    pub meal_choice: String,
    pub dietary_restrictions: String,
    pub plus_one_attending: bool,
    pub plus_one_name: String,
    pub plus_one_meal_choice: String,
    pub plus_one_dietary_restrictions: String,
    pub comments: String,
    pub created_at: Timestamp,
    pub updated_at: Timestamp,
}

/// Head counts of the three parts of the event.
#[derive(Debug, PartialEq, Eq)]
pub struct Attendance {
    pub attending: u32,
    pub attending_secondary: u32,
    pub attending_tertiary: u32,
}

/// A [`NameParams`] with its text as characters.
pub struct NameParamsView {
    pub name: Seq<char>,
}

/// An [`AddParams`] with its texts as characters.
pub struct AddParamsView {
    pub name: Seq<char>,
    pub email: Seq<char>,
    pub plus_one_name: Seq<char>,
}

/// An [`RsvpParams`] with its texts as characters.
pub struct RsvpParamsView {
    pub name: Seq<char>,
    pub email: Seq<char>,
    pub attending: bool,
    pub attending_secondary: bool,
    pub attending_tertiary: bool,
    pub meal_choice: Seq<char>,
    pub dietary_restrictions: Seq<char>,
    pub plus_one_attending: bool,
    pub plus_one_name: Seq<char>,
    pub plus_one_meal_choice: Seq<char>,
    pub plus_one_dietary_restrictions: Seq<char>,
    pub comments: Seq<char>,
}

/// An [`RsvpModel`] with its texts as characters.
pub struct RsvpModelView {
    pub name: Seq<char>,
    pub email: Seq<char>,
    pub attending: bool,
    pub attending_secondary: bool,
    pub attending_tertiary: bool,
    pub meal_choice: Seq<char>,
    pub dietary_restrictions: Seq<char>,
    pub plus_one_attending: bool,
    pub plus_one_name: Seq<char>,
    pub plus_one_meal_choice: Seq<char>,
    pub plus_one_dietary_restrictions: Seq<char>,
    pub comments: Seq<char>,
    pub created_at: Timestamp,
    pub updated_at: Timestamp,
}

impl View for NameParams {
    type V = NameParamsView;

    open spec fn view(&self) -> NameParamsView {
        NameParamsView { name: self.name@ }
    }
}

impl View for AddParams {
    type V = AddParamsView;

    open spec fn view(&self) -> AddParamsView {
        AddParamsView { name: self.name@, email: self.email@, plus_one_name: self.plus_one_name@ }
    }
}

impl View for RsvpParams {
    type V = RsvpParamsView;

    open spec fn view(&self) -> RsvpParamsView {
        RsvpParamsView {
            name: self.name@,
            email: self.email@,
            attending: self.attending,
            attending_secondary: self.attending_secondary,
            attending_tertiary: self.attending_tertiary,
            meal_choice: self.meal_choice@,
            dietary_restrictions: self.dietary_restrictions@,
            plus_one_attending: self.plus_one_attending,
            plus_one_name: self.plus_one_name@,
            plus_one_meal_choice: self.plus_one_meal_choice@,
            plus_one_dietary_restrictions: self.plus_one_dietary_restrictions@,
            comments: self.comments@,
        }
    }
}

impl View for RsvpModel {
    type V = RsvpModelView;

    open spec fn view(&self) -> RsvpModelView {
        RsvpModelView {
            name: self.name@,
            email: self.email@,
            attending: self.attending,
            attending_secondary: self.attending_secondary,
            attending_tertiary: self.attending_tertiary,
            meal_choice: self.meal_choice@,
            dietary_restrictions: self.dietary_restrictions@,
            plus_one_attending: self.plus_one_attending,
            plus_one_name: self.plus_one_name@,
            plus_one_meal_choice: self.plus_one_meal_choice@,
            plus_one_dietary_restrictions: self.plus_one_dietary_restrictions@,
            comments: self.comments@,
            created_at: self.created_at,
            updated_at: self.updated_at,
        }
    }
}

impl DeepView for RsvpModel {
    type V = RsvpModelView;

    open spec fn deep_view(&self) -> RsvpModelView {
        self@
    }
}

impl DeepView for Attendance {
    type V = Attendance;

    open spec fn deep_view(&self) -> Attendance {
        *self
    }
}

impl Clone for ErrorContext {
    fn clone(&self) -> (r: Self)
        ensures
            r == *self,
    {
        ErrorContext { has_error: self.has_error, error: self.error.clone() }
    }
}

impl Default for ErrorContext {
    fn default() -> (r: Self)
        ensures
            !r.has_error,
            r.error@.len() == 0,
    {
        ErrorContext { has_error: false, error: String::new() }
    }
}

impl Clone for IndexContext {
    fn clone(&self) -> (r: Self)
        ensures
            r == *self,
    {
        IndexContext { admin: self.admin.clone() }
    }
}

impl Default for IndexContext {
    fn default() -> (r: Self)
        ensures
            r.admin@.len() == 0,
    {
        IndexContext { admin: String::new() }
    }
}

impl Clone for PhotosContext {
    fn clone(&self) -> (r: Self)
        ensures
            r == *self,
    {
        PhotosContext { admin: self.admin.clone(), photo_indices: self.photo_indices }
    }
}

impl Default for PhotosContext {
    fn default() -> (r: Self)
        ensures
            r.admin@.len() == 0,
            forall|i: int| 0 <= i < NUM_PHOTOS ==> r.photo_indices@[i] == 0,
    {
        PhotosContext { admin: String::new(), photo_indices: [0usize; NUM_PHOTOS] }
    }
}

/// The numbers of the photographs: one, two and so on up to [`NUM_PHOTOS`].
pub fn photo_indices() -> (r: [usize; NUM_PHOTOS])
    ensures
        forall|i: int| 0 <= i < NUM_PHOTOS ==> r@[i] == i + 1,
{
    let mut indices = [0usize; NUM_PHOTOS];
    let mut i: usize = 0;
    while i < NUM_PHOTOS
        invariant
            i <= NUM_PHOTOS,
            forall|j: int| 0 <= j < i ==> indices@[j] == j + 1,
        decreases NUM_PHOTOS - i,
    {
        indices[i] = i + 1;
        i = i + 1;
    }
    indices
}

impl Clone for NameParams {
    fn clone(&self) -> (r: Self)
        ensures
            r == *self,
    {
        NameParams { name: self.name.clone() }
    }
}

impl Clone for AddParams {
    fn clone(&self) -> (r: Self)
        ensures
            r == *self,
    {
        AddParams {
            name: self.name.clone(),
            email: self.email.clone(),
            plus_one_name: self.plus_one_name.clone(),
        }
    }
}

impl Clone for RsvpParams {
    fn clone(&self) -> (r: Self)
        ensures
            r == *self,
    {
        RsvpParams {
            name: self.name.clone(),
            email: self.email.clone(),
            attending: self.attending,
            attending_secondary: self.attending_secondary,
            attending_tertiary: self.attending_tertiary,
            meal_choice: self.meal_choice.clone(),
            dietary_restrictions: self.dietary_restrictions.clone(),
            plus_one_attending: self.plus_one_attending,
            plus_one_name: self.plus_one_name.clone(),
            plus_one_meal_choice: self.plus_one_meal_choice.clone(),
            plus_one_dietary_restrictions: self.plus_one_dietary_restrictions.clone(),
            comments: self.comments.clone(),
        }
    }
}

impl Clone for RsvpModel {
    fn clone(&self) -> (r: Self)
        ensures
            r == *self,
    {
        RsvpModel {
            name: self.name.clone(),
            email: self.email.clone(),
            attending: self.attending,
            attending_secondary: self.attending_secondary,
            attending_tertiary: self.attending_tertiary,
            meal_choice: self.meal_choice.clone(),
            dietary_restrictions: self.dietary_restrictions.clone(),
            plus_one_attending: self.plus_one_attending,
            plus_one_name: self.plus_one_name.clone(),
            plus_one_meal_choice: self.plus_one_meal_choice.clone(),
            plus_one_dietary_restrictions: self.plus_one_dietary_restrictions.clone(),
            comments: self.comments.clone(),
            created_at: self.created_at,
            updated_at: self.updated_at,
        }
    }
}

impl Clone for Attendance {
    fn clone(&self) -> (r: Self)
        ensures
            r == *self,
    {
        Attendance {
            attending: self.attending,
            attending_secondary: self.attending_secondary,
            attending_tertiary: self.attending_tertiary,
        }
    }
}

impl Default for Attendance {
    fn default() -> (r: Self)
        ensures
            r == (Attendance { attending: 0, attending_secondary: 0, attending_tertiary: 0 }),
    {
        Attendance { attending: 0, attending_secondary: 0, attending_tertiary: 0 }
    }
}

/// The record that a first answer creates: every field of the answer, and
/// both times set to `now`.
pub open spec fn created_from_rsvp(params: RsvpParamsView, now: Timestamp) -> RsvpModelView {
    RsvpModelView {
        name: params.name,
        email: params.email,
        attending: params.attending,
        attending_secondary: params.attending_secondary,
        attending_tertiary: params.attending_tertiary,
        meal_choice: params.meal_choice,
        dietary_restrictions: params.dietary_restrictions,
        plus_one_attending: params.plus_one_attending,
        plus_one_name: params.plus_one_name,
        plus_one_meal_choice: params.plus_one_meal_choice,
        plus_one_dietary_restrictions: params.plus_one_dietary_restrictions,
        comments: params.comments,
        created_at: now,
        updated_at: now,
    }
}

/// The record of a guest who has not answered yet: nobody attends, every
/// free text is empty, and both times are `now`.
pub open spec fn created_from_add(params: AddParamsView, now: Timestamp) -> RsvpModelView {
    RsvpModelView {
        name: params.name,
        email: params.email,
        attending: false,
        attending_secondary: false,
        attending_tertiary: false,
        meal_choice: Seq::empty(),
        dietary_restrictions: Seq::empty(),
        plus_one_attending: false,
        plus_one_name: params.plus_one_name,
        plus_one_meal_choice: Seq::empty(),
        plus_one_dietary_restrictions: Seq::empty(),
        comments: Seq::empty(),
        created_at: now,
        updated_at: now,
    }
}

/// A record after a later answer of the same guest. The name stays as the
/// record has it, and so does the time of creation. The two meal choices stay where the answer leaves them
/// empty; every other field is taken from the answer, empty or not. The time
/// of the last change becomes `now`.
pub open spec fn merged(record: RsvpModelView, params: RsvpParamsView, now: Timestamp) -> RsvpModelView {
    RsvpModelView {
        name: record.name,
        email: params.email,
        attending: params.attending,
        attending_secondary: params.attending_secondary,
        attending_tertiary: params.attending_tertiary,
        meal_choice: if params.meal_choice.len() == 0 {
            record.meal_choice
        } else {
            params.meal_choice
        },
        dietary_restrictions: params.dietary_restrictions,
        plus_one_attending: params.plus_one_attending,
        plus_one_name: params.plus_one_name,
        plus_one_meal_choice: if params.plus_one_meal_choice.len() == 0 {
            record.plus_one_meal_choice
        } else {
            params.plus_one_meal_choice
        },
        plus_one_dietary_restrictions: params.plus_one_dietary_restrictions,
        comments: params.comments,
        created_at: record.created_at,
        updated_at: now,
    }
}

impl RsvpModelView {
    /// The record was not changed before it was created.
    pub open spec fn well_timed(self) -> bool {
        self.created_at.spec_not_after(self.updated_at)
    }
}

impl RsvpModel {
    /// The record that a first answer creates at the time `datetime`.
    pub fn new_with_rsvp(params: &RsvpParams, datetime: Timestamp) -> (r: Self)
        ensures
            r@ == created_from_rsvp(params@, datetime),
            r@.well_timed(),
    {
        RsvpModel {
            name: params.name.clone(),
            email: params.email.clone(),
            attending: params.attending,
            attending_secondary: params.attending_secondary,
            attending_tertiary: params.attending_tertiary,
            meal_choice: params.meal_choice.clone(),
            dietary_restrictions: params.dietary_restrictions.clone(),
            plus_one_attending: params.plus_one_attending,
            plus_one_name: params.plus_one_name.clone(),
            plus_one_meal_choice: params.plus_one_meal_choice.clone(),
            plus_one_dietary_restrictions: params.plus_one_dietary_restrictions.clone(),
            comments: params.comments.clone(),
            created_at: datetime,
            updated_at: datetime,
        }
    }

    /// Takes a later answer of the same guest into the record. The answer is
    /// of the same guest where its name and the record's have the same key:
    /// they differ in case and in the white space around them at most. An
    /// answer of another guest is refused and changes nothing.
    pub fn update(&mut self, params: &RsvpParams, datetime: Timestamp) -> (r: Result<(), Error>)
        ensures
            key_of(old(self)@.name) != key_of(params@.name) ==> r is Err && r->Err_0@
                == ErrorView::Update(params@) && *final(self) == *old(self),
            key_of(old(self)@.name) == key_of(params@.name) ==> r is Ok && final(self)@ == merged(
                old(self)@,
                params@,
                datetime,
            ),
    {
        if piece_key(self.name.as_str()) != piece_key(params.name.as_str()) {
            return Err(Error::Update(params.clone()));
        }
        self.email = params.email.clone();
        self.attending = params.attending;
        self.attending_secondary = params.attending_secondary;
        self.attending_tertiary = params.attending_tertiary;
        if !params.meal_choice.as_str().is_empty() {
            self.meal_choice = params.meal_choice.clone();
        }
        self.dietary_restrictions = params.dietary_restrictions.clone();
        self.plus_one_attending = params.plus_one_attending;
        self.plus_one_name = params.plus_one_name.clone();
        if !params.plus_one_meal_choice.as_str().is_empty() {
            self.plus_one_meal_choice = params.plus_one_meal_choice.clone();
        }
        self.plus_one_dietary_restrictions = params.plus_one_dietary_restrictions.clone();
        self.comments = params.comments.clone();
        self.updated_at = datetime;
        Ok(())
    }

    /// The record of a guest who is put on the list at the time `datetime`
    /// and has not answered yet.
    pub fn new_with_add(params: &AddParams, datetime: Timestamp) -> (r: Self)
        ensures
            r@ == created_from_add(params@, datetime),
            r@.well_timed(),
    {
        RsvpModel {
            name: params.name.clone(),
            email: params.email.clone(),
            attending: false,
            attending_secondary: false,
            attending_tertiary: false,
            meal_choice: String::default(),
            dietary_restrictions: String::default(),
            plus_one_attending: false,
            plus_one_name: params.plus_one_name.clone(),
            plus_one_meal_choice: String::default(),
            plus_one_dietary_restrictions: String::default(),
            comments: String::default(),
            created_at: datetime,
            updated_at: datetime,
        }
    }
}

/// A merge keeps the record well timed as long as the clock has not gone
/// back behind the record's creation.
pub proof fn lemma_merged_well_timed(record: RsvpModelView, params: RsvpParamsView, now: Timestamp)
    requires
        record.created_at.spec_not_after(now),
    ensures
        merged(record, params, now).well_timed(),
        merged(record, params, now).created_at == record.created_at,
        merged(record, params, now).name == record.name,
{
}

} // verus!
