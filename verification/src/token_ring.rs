//! The token-ring scenario: rank 0 originates a sentinel token, every rank
//! receives from its ring predecessor and hands the exact value on to its
//! ring successor, and rank 0's closing receive from the last rank detects
//! that the circuit completed.

use vstd::prelude::*;

verus! {

use crate::channel::deliver_one;

/// The value rank 0 puts on the ring.
pub const TOKEN_SENTINEL: i32 = -1;

/// Rank 0 mints the token that starts the circuit.
pub fn originate_token() -> (t: i32)
    ensures
        t == TOKEN_SENTINEL,
{
    TOKEN_SENTINEL
}

/// Every later rank hands on exactly the token it received, unmodified.
pub fn relay_token(received: i32) -> (t: i32)
    ensures
        t == received,
{
    received
}

/// One full circuit. Row `i` of the returned vector is the token rank `i`
/// forwarded to its successor: rank 0 forwards the sentinel, every later
/// rank forwards exactly what its predecessor forwarded, and the closing
/// receive at rank 0 returns what rank `size - 1` most recently forwarded —
/// the sentinel, home unchanged.
pub fn run_token_ring(size: i32) -> (r: (i32, Vec<i32>))
    requires
        2 <= size,
    ensures
        r.1@.len() == size as int,
        r.1@[0] == TOKEN_SENTINEL,
        forall|i: int| 1 <= i < size ==> #[trigger] r.1@[i] == r.1@[i - 1],
        r.0 == r.1@[size - 1],
        r.0 == TOKEN_SENTINEL,
{
    let mut forwarded: Vec<i32> = Vec::new();
    forwarded.push(originate_token());
    let mut i: i32 = 1;
    while i < size
        invariant
            1 <= i <= size,
            forwarded@.len() == i as int,
            forwarded@[0] == TOKEN_SENTINEL,
            forall|j: int| 1 <= j < i ==> #[trigger] forwarded@[j] == forwarded@[j - 1],
            forall|j: int| 0 <= j < i ==> forwarded@[j] == TOKEN_SENTINEL,
        decreases size - i,
    {
        let prior = forwarded[(i - 1) as usize];
        let (received, _status) = deliver_one(i - 1, 0, prior);
        let token = relay_token(received);
        forwarded.push(token);
        i = i + 1;
    }
    let last = forwarded[(size - 1) as usize];
    let (closing, _status) = deliver_one(size - 1, 0, last);
    (closing, forwarded)
}

} // verus!
