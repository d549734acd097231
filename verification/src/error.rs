//! What the store reports when it cannot do what was asked.
use crate::model::{AddParams, AddParamsView, RsvpParams, RsvpParamsView};
use vstd::prelude::*;

verus! {

/// Why a row that the file holds is not a record, or a record has no row.
#[derive(Clone, Copy, Debug, PartialEq, Eq, Structural)]
pub enum RowFault {
    /// Some column has no cell in the row: the header does not name it, names
    /// it twice, or the row ends before it.
    Columns,
    /// An attendance flag is neither `true` nor `false`.
    Flag,
    /// A time is not written as RFC 3339 text, or has no such text.
    Time,
}

/// Why an operation of the store did not do what was asked.
#[derive(Debug)]
pub enum Error {
    /// The `csv` crate could not read the file or write a row; the text is
    /// what the crate says of it.
    Csv(String),
    /// A row is not a record, or a record has no row.
    Row(RowFault),
    /// A guest of that name is on the list already.
    Add(AddParams),
    /// An answer was applied to the record of another guest.
    Update(RsvpParams),
}

/// An error without the text that the `csv` crate gave.
pub enum ErrorView {
    Csv,
    Row(RowFault),
    Add(AddParamsView),
    Update(RsvpParamsView),
}

impl View for Error {
    type V = ErrorView;

    open spec fn view(&self) -> ErrorView {
        match self {
            Error::Csv(_) => ErrorView::Csv,
            Error::Row(fault) => ErrorView::Row(*fault),
            Error::Add(params) => ErrorView::Add(params@),
            Error::Update(params) => ErrorView::Update(params@),
        }
    }
}

} // verus!
