//! Mirroring the tabs of a spreadsheet into snapshot files, with change
//! detection by content.
//!
//! Each tab (a *source*) is fetched as one payload. The payload's fingerprint is
//! held against the state store; only a source that is new or has changed is
//! normalized into a table and written out, together with the state document
//! and the pointer to the source that changed last.
//!
//! The library decides and computes; it performs no requests and touches no
//! files. [`scheduler`] says what is to be done next, and whoever drives it
//! reports back what happened.

pub mod assoc;
pub mod clock;
pub mod decimal;
pub mod error;
pub mod fingerprint;
pub mod json;
pub mod pages;
pub mod scheduler;
pub mod sources;
pub mod state;
pub mod sync;
pub mod table;
pub mod token;
