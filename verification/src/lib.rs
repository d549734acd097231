//! A guest list kept in one comma-separated text file.
//!
//! - [`model`]: the records of the list and the parameters that make and
//!   change them.
//! - [`file`]: the file, as bytes with one cursor for reading and writing.
//! - [`csvio`], [`clock`]: the `csv` crate and `chrono`, each behind a few
//!   functions whose contracts are believed, not proved.
//! - [`text`], [`row`]: names as they are compared, and rows of cells as
//!   records.
//! - [`roster`]: the list as a sequence of records.
//! - [`csvdb`]: the store and its operations on the file.
//! - [`request`]: what the requests of a guest do to the store.
//! - [`laws`]: what holds when one operation follows another.
//! - [`email`], [`error`]: the addresses and texts of notices, and errors.
pub mod clock;
pub mod csvdb;
pub mod csvio;
pub mod email;
pub mod error;
pub mod file;
pub mod laws;
pub mod model;
pub mod request;
pub mod roster;
pub mod row;
pub mod text;
