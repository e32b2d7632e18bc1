//! Every platform that has no table of limits to read.

use vstd::prelude::*;
use crate::Error;

verus! {

/// Stands where the limits of a process would, on a platform that reports
/// none. It holds nothing, and no query ever returns one.
#[derive(Debug)]
pub struct Limits();

/// The limits of the process `pid`: none can be had. The answer is always
/// [`Error::UnsupportedOS`], whatever the process, and nothing is read.
pub fn get_pid_limits(pid: u32) -> (result: Result<Limits, Error>)
    ensures
        result matches Err(Error::UnsupportedOS),
{
    Err(Error::UnsupportedOS)
}

} // verus!
