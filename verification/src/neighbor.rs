//! The neighbor-exchange scenario: every rank sends a three-element
//! fingerprint to its ring successor through a scoped non-blocking send,
//! receives from any source, and verifies that what arrived is exactly the
//! fingerprint of the origin its status reports — which, in a ring, is its
//! ring predecessor.

use vstd::prelude::*;

verus! {

use crate::channel::RequestScope;
use crate::channel::SendRequest;
use crate::channel::Status;
use crate::channel::deliver;
use crate::group::ProcessGroup;
use crate::group::lemma_next_in_ring_val;
use crate::group::lemma_prev_of_next;
use crate::group::next_in_ring;
use crate::group::prev_in_ring;

/// The largest rank whose fingerprint still fits in 32-bit elements.
pub const MAX_FINGERPRINT_RANK: i32 = 0x1FFF_FFFF;

/// What rank `rank` announces about itself: the three elements
/// `[rank, 2·rank, 4·rank]`.
pub open spec fn is_fingerprint(msg: Seq<i32>, rank: int) -> bool {
    msg.len() == 3 && msg[0] == rank && msg[1] == 2 * rank && msg[2] == 4 * rank
}

/// Builds this rank's fingerprint.
pub fn fingerprint(rank: i32) -> (r: Vec<i32>)
    requires
        0 <= rank <= MAX_FINGERPRINT_RANK,
    ensures
        is_fingerprint(r@, rank as int),
{
    let mut out: Vec<i32> = Vec::new();
    out.push(rank);
    out.push(2 * rank);
    out.push(4 * rank);
    out
}

/// Decides, for any message and any claimed origin, whether the message is
/// exactly that origin's fingerprint.
pub fn check_fingerprint(msg: &Vec<i32>, source: i32) -> (r: bool)
    ensures
        r == is_fingerprint(msg@, source as int),
{
    msg.len() == 3 && msg[0] == source && (msg[1] as i64) == 2 * (source as i64) && (
    msg[2] as i64) == 4 * (source as i64)
}

/// What rank `t`'s wildcard receive observes in the exchange: its ring
/// predecessor's fingerprint, under the predecessor's true origin and a
/// count of three.
pub open spec fn exchange_observation(entry: (Vec<i32>, Status), t: int, size: int) -> bool {
    let s = prev_in_ring(t, size);
    entry.1.source_rank == s && entry.1.count == 3 && is_fingerprint(entry.0@, s)
}

/// The whole exchange, row `t` holding what rank `t` observed: each rank
/// issues its fingerprint to its successor inside a completion scope,
/// receives from any source, and checks what arrived against the reported
/// origin's fingerprint before the scope closes.
pub fn run_neighbor_exchange(size: i32) -> (r: Vec<(Vec<i32>, Status)>)
    requires
        2 <= size <= MAX_FINGERPRINT_RANK,
    ensures
        r@.len() == size as int,
        forall|t: int| 0 <= t < size ==> exchange_observation(#[trigger] r@[t], t, size as int),
{
    let mut rows: Vec<(Vec<i32>, Status)> = Vec::new();
    let mut t: i32 = 0;
    while t < size
        invariant
            0 <= t <= size,
            2 <= size <= MAX_FINGERPRINT_RANK,
            rows@.len() == t as int,
            forall|j: int| 0 <= j < t ==> exchange_observation(#[trigger] rows@[j], j, size as int),
        decreases size - t,
    {
        let group = ProcessGroup { rank: t, size };
        let mut scope = RequestScope::<i32>::open();
        let outgoing = fingerprint(t);
        scope.attach(SendRequest::issue(group.next_rank(), 0, outgoing));
        let origin = group.previous_rank();
        let sent_by_origin = fingerprint(origin);
        let (msg, status) = deliver(origin, 0, sent_by_origin);
        let matched = check_fingerprint(&msg, status.source_rank);
        proof {
            assert(matched);
        }
        rows.push((msg, status));
        let _released = scope.close();
        t = t + 1;
    }
    rows
}

/// After the exchange, the message observed by rank `r`'s ring successor is
/// exactly `r`'s fingerprint, and its status reports true origin `r` —
/// even though the successor received from "any source".
pub proof fn lemma_neighbor_exchange(rows: Seq<(Vec<i32>, Status)>, size: int, r: int)
    requires
        2 <= size,
        rows.len() == size,
        forall|t: int| 0 <= t < size ==> exchange_observation(#[trigger] rows[t], t, size),
        0 <= r < size,
    ensures
        rows[next_in_ring(r, size)].1.source_rank == r,
        rows[next_in_ring(r, size)].1.count == 3,
        is_fingerprint(rows[next_in_ring(r, size)].0@, r),
{
    lemma_next_in_ring_val(r, size);
    lemma_prev_of_next(r, size);
    assert(exchange_observation(rows[next_in_ring(r, size)], next_in_ring(r, size), size));
}

} // verus!
