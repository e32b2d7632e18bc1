//! Per-process resource limits, as the operating system reports them.
//!
//! On GNU/Linux every process has a table of its limits under
//! `/proc/<pid>/limits`. The module [`linux`] names that file, reads the
//! table from its lines and keeps the result in a [`linux::Limits`] record.
//! The module [`default`] stands for every platform without such a table:
//! its query always answers with [`Error::UnsupportedOS`].
//!
//! The crate itself opens no file. A caller reads the lines and hands them
//! over; what is done with them is specified and verified here.

use vstd::prelude::*;

pub mod decimal;
pub mod default;
pub mod linux;
pub mod spans;
pub mod text;

verus! {

/// `std::io::Error`, carried through as the cause of a failed query. Nothing
/// is known of its contents.
#[verifier::external_type_specification]
#[verifier::external_body]
pub struct ExIoError(std::io::Error);

/// The ways in which a query for the limits of a process can fail.
#[derive(Debug)]
pub enum Error {
    /// The platform has no table of limits to read.
    UnsupportedOS,
    /// The table of the process could not be opened: the path that was
    /// tried, and what the operating system answered.
    ProcFileNotFound(String, std::io::Error),
}

} // verus!
