//! Reporting on the USB devices attached to a host.
//!
//! The crate holds the rules of the report: how the answers of a device become
//! a record ([`reader`]), what a record and a failure are ([`record`]), how
//! records are rendered as text ([`report`], with the numerals of [`decimal`]),
//! and how that text is read back ([`parse`]), with the proof that reading
//! undoes rendering ([`round_trip`]).
//!
//! Talking to the USB subsystem and to the file system is left to the caller,
//! who hands over what was read and takes back what is to be written.

pub mod decimal;
pub mod parse;
pub mod reader;
pub mod record;
pub mod report;
pub mod round_trip;
