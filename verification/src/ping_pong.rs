//! The ping-pong scenario: two players alternate incrementing and sending a
//! shared counter until it reaches the shot limit; every other rank sits
//! out. The loop state is the counter itself, threaded through each step,
//! and whose turn it is falls out of the counter's parity.

use vstd::prelude::*;

verus! {

use crate::channel::deliver_one;

/// How many ranks play.
pub const NUM_PLAYERS: i32 = 2;

/// The counter value at which the rally stops.
pub const MAX_SHOTS: i32 = 100;

/// What one rank does at one counter value.
#[derive(Clone, Copy, Debug, PartialEq, Eq, Structural)]
pub enum PingPongAction {
    /// Increment the counter and send it to the partner.
    Shoot { target: i32, next_count: i32 },
    /// Await the partner's shot.
    Await { from: i32 },
    /// Sit out: this rank is not one of the players.
    Idle,
}

/// The player a pair member exchanges with: the pair's other member.
pub open spec fn partner_of(rank: int) -> int {
    (rank + 1) % (NUM_PLAYERS as int)
}

/// One decision of the protocol: with the counter at `count`, the player
/// whose rank equals `count % NUM_PLAYERS` shoots the incremented counter
/// at its partner, the other player awaits it, and ranks beyond the
/// players neither send nor receive.
pub fn ping_pong_step(rank: i32, count: i32) -> (a: PingPongAction)
    requires
        0 <= rank,
        0 <= count < i32::MAX,
    ensures
        rank >= NUM_PLAYERS ==> a is Idle,
        rank < NUM_PLAYERS && count % NUM_PLAYERS == rank ==> (a matches PingPongAction::Shoot {
            target,
            next_count,
        } && target == partner_of(rank as int) && next_count == count + 1),
        rank < NUM_PLAYERS && count % NUM_PLAYERS != rank ==> (a matches PingPongAction::Await {
            from,
        } && from == partner_of(rank as int)),
{
    if rank >= NUM_PLAYERS {
        PingPongAction::Idle
    } else {
        let partner = (rank + 1) % NUM_PLAYERS;
        if count % NUM_PLAYERS == rank {
            PingPongAction::Shoot { target: partner, next_count: count + 1 }
        } else {
            PingPongAction::Await { from: partner }
        }
    }
}

/// The players' shared rally up to `max_shots`. The returned sequence holds
/// the counter after each exchange: it climbs by exactly one per exchange,
/// both players observe the same value, and the rally ends after exactly
/// `max_shots` exchanges.
pub fn run_ping_pong(max_shots: i32) -> (r: Vec<i32>)
    requires
        0 <= max_shots,
    ensures
        r@.len() == max_shots as int,
        forall|i: int| 0 <= i < max_shots ==> r@[i] == i + 1,
{
    let mut observed: Vec<i32> = Vec::new();
    let mut count: i32 = 0;
    while count < max_shots
        invariant
            0 <= count <= max_shots,
            observed@.len() == count as int,
            forall|i: int| 0 <= i < count ==> observed@[i] == i + 1,
        decreases max_shots - count,
    {
        let shooter = count % NUM_PLAYERS;
        let action = ping_pong_step(shooter, count);
        match action {
            PingPongAction::Shoot { target: _, next_count } => {
                let (received, _status) = deliver_one(shooter, 0, next_count);
                count = received;
                observed.push(count);
            },
            _ => {
                proof {
                    assert(false);
                }
            },
        }
    }
    observed
}

} // verus!
