//! The directed-send scenario: rank 0 sends a one-element payload to
//! rank 1, rank 1 receives it from "any source", and every other rank is
//! idle from the start.

use vstd::prelude::*;

verus! {

use crate::channel::Status;
use crate::channel::deliver;
use crate::group::Role;

/// The one-element payload rank 0 directs at rank 1.
pub fn directed_payload() -> (r: Vec<i32>)
    ensures
        r@.len() == 1,
        r@[0] == -1,
{
    let mut out: Vec<i32> = Vec::new();
    out.push(-1);
    out
}

/// A rank's part in this pattern: rank 0 is the root and sends, rank 1
/// takes part and receives, everyone else is idle.
pub fn directed_role(rank: i32) -> (r: Role)
    requires
        0 <= rank,
    ensures
        rank == 0 ==> r is Root,
        rank == 1 ==> r is NonRoot,
        rank >= 2 ==> r is Idle,
{
    crate::group::role_of(rank, 2)
}

/// The whole pattern: rank 0's payload crosses to rank 1, whose wildcard
/// receive reports true origin 0 and a count of one.
pub fn run_directed_send() -> (r: (Vec<i32>, Status))
    ensures
        r.0@.len() == 1,
        r.0@[0] == -1,
        r.1.source_rank == 0,
        r.1.count == 1,
{
    let payload = directed_payload();
    deliver(0, 0, payload)
}

} // verus!
