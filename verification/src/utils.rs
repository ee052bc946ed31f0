//! Reading what the node left on disk for later runs.

use vstd::prelude::*;
use crate::text::parse_i32;
use crate::text::parsed_i32;

verus! {

/// The process identifier that the contents of a pid file write: the
/// contents must be a 32-bit integer and nothing else.
pub fn read_pid(contents: &str) -> (pid: Option<i32>)
    ensures
        pid == parsed_i32(contents@),
{
    parse_i32(contents)
}

} // verus!
