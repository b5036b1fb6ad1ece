//! Rank identity and the process group (communicator).
//!
//! A group is a fixed, addressable set of `size` cooperating processes;
//! each process knows its own `rank` in `[0, size)`. Derived ranks
//! (ring successor, ring predecessor, pair partner) are computed with a
//! true (non-negative) modulo.

use vstd::prelude::*;

verus! {

use crate::error::CommError;
use vstd::arithmetic::div_mod::lemma_mod_add_multiples_vanish;
use vstd::arithmetic::div_mod::lemma_mod_self_0;
use vstd::arithmetic::div_mod::lemma_small_mod;

/// The position one step forward in the ring, as mathematics sees it:
/// `(rank + 1) mod size`, always in `[0, size)`.
pub open spec fn next_in_ring(rank: int, size: int) -> int {
    (rank + 1) % size
}

/// The position one step backward in the ring: `(rank - 1 + size) mod size`,
/// always in `[0, size)`. Adding `size` before taking the modulo keeps the
/// result non-negative even at rank 0.
pub open spec fn prev_in_ring(rank: int, size: int) -> int {
    (rank - 1 + size) % size
}

/// A rank's part in a pattern with a designated origin: the root, a
/// participating non-root, or an idle bystander outside the pattern.
/// Computed once from the rank, then dispatched on, instead of repeating
/// inline rank comparisons through a scenario.
#[derive(Clone, Copy, Debug, PartialEq, Eq, Structural)]
pub enum Role {
    /// The designated origin of the pattern.
    Root,
    /// A participating rank other than the root.
    NonRoot,
    /// A rank the pattern never involves.
    Idle,
}

/// The part rank `rank` plays in a pattern that involves the first
/// `participants` ranks, rooted at rank 0.
pub fn role_of(rank: i32, participants: i32) -> (r: Role)
    requires
        0 <= rank,
    ensures
        rank == 0 ==> r is Root,
        0 < rank < participants ==> r is NonRoot,
        rank != 0 && rank >= participants ==> r is Idle,
{
    if rank == 0 {
        Role::Root
    } else if rank < participants {
        Role::NonRoot
    } else {
        Role::Idle
    }
}

/// Routing token naming the target or source of an operation: either a
/// specific rank, or a wildcard that matches the first message from anyone.
#[derive(Clone, Copy, Debug, PartialEq, Eq, Structural)]
pub enum ProcessHandle {
    /// Address one specific rank.
    AtRank(i32),
    /// Match a message from any sender; the true origin is reported in the
    /// receive status.
    AnySource,
}

/// The fixed set of cooperating processes for one run, seen from one member:
/// the group's `size` and this process's own `rank`. Immutable for the
/// process's whole lifetime.
#[derive(Clone, Copy, Debug, PartialEq, Eq, Structural)]
pub struct ProcessGroup {
    pub rank: i32,
    pub size: i32,
}

impl ProcessGroup {
    /// A group is well formed when the local rank lies inside it.
    pub open spec fn wf(self) -> bool {
        0 <= self.rank < self.size
    }

    pub open spec fn spec_rank(self) -> int {
        self.rank as int
    }

    pub open spec fn spec_size(self) -> int {
        self.size as int
    }

    /// Builds the group a bootstrap runtime reported: succeeds exactly when
    /// the reported rank lies in `[0, size)`.
    pub fn new(rank: i32, size: i32) -> (r: Result<ProcessGroup, CommError>)
        ensures
            0 <= rank < size <==> r is Ok,
            r matches Ok(g) ==> g.wf() && g.spec_rank() == rank && g.spec_size() == size,
            !(0 <= rank < size) ==> r == Err::<ProcessGroup, CommError>(CommError::InvalidRank),
    {
        if 0 <= rank && rank < size {
            Ok(ProcessGroup { rank, size })
        } else {
            Err(CommError::InvalidRank)
        }
    }

    /// This process's own rank; pure and constant-time.
    pub fn rank(&self) -> (r: i32)
        ensures
            r == self.spec_rank(),
    {
        self.rank
    }

    /// The number of ranks in the group; pure and constant-time.
    pub fn size(&self) -> (r: i32)
        ensures
            r == self.spec_size(),
    {
        self.size
    }

    /// A handle on one specific rank; fails with `InvalidRank` for a rank
    /// outside `[0, size)` and never blocks.
    pub fn process_at(&self, rank: i32) -> (r: Result<ProcessHandle, CommError>)
        requires
            self.wf(),
        ensures
            0 <= rank < self.spec_size() <==> r is Ok,
            r matches Ok(h) ==> h == ProcessHandle::AtRank(rank),
            !(0 <= rank < self.spec_size()) ==> r == Err::<ProcessHandle, CommError>(
                CommError::InvalidRank,
            ),
    {
        if 0 <= rank && rank < self.size {
            Ok(ProcessHandle::AtRank(rank))
        } else {
            Err(CommError::InvalidRank)
        }
    }

    /// The wildcard handle: a receive through it takes the first message to
    /// arrive from any rank.
    pub fn any_process(&self) -> (r: ProcessHandle)
        ensures
            r == ProcessHandle::AnySource,
    {
        ProcessHandle::AnySource
    }

    /// This process's ring successor, by true modulo.
    pub fn next_rank(&self) -> (r: i32)
        requires
            self.wf(),
        ensures
            r == next_in_ring(self.spec_rank(), self.spec_size()),
            0 <= r < self.spec_size(),
    {
        proof {
            lemma_next_in_ring_val(self.spec_rank(), self.spec_size());
        }
        if self.rank + 1 == self.size {
            0
        } else {
            self.rank + 1
        }
    }

    /// This process's ring predecessor. The naive `(rank - 1) % size` would
    /// be negative at rank 0; the contract demands the wrapped value.
    pub fn previous_rank(&self) -> (r: i32)
        requires
            self.wf(),
        ensures
            r == prev_in_ring(self.spec_rank(), self.spec_size()),
            0 <= r < self.spec_size(),
    {
        proof {
            lemma_prev_in_ring_val(self.spec_rank(), self.spec_size());
        }
        if self.rank == 0 {
            self.size - 1
        } else {
            self.rank - 1
        }
    }
}

/// The ring successor, written without a modulo: one more, or zero at the
/// wrap-around.
pub proof fn lemma_next_in_ring_val(rank: int, size: int)
    requires
        0 <= rank < size,
    ensures
        next_in_ring(rank, size) == (if rank + 1 == size { 0int } else { rank + 1 }),
{
    if rank + 1 == size {
        lemma_mod_self_0(size);
    } else {
        lemma_small_mod((rank + 1) as nat, size as nat);
    }
}

/// The ring predecessor, written without a modulo: one less, or the last
/// rank at the wrap-around.
pub proof fn lemma_prev_in_ring_val(rank: int, size: int)
    requires
        0 <= rank < size,
    ensures
        prev_in_ring(rank, size) == (if rank == 0 { size - 1 } else { rank - 1 }),
{
    if rank == 0 {
        lemma_small_mod((size - 1) as nat, size as nat);
    } else {
        assert(rank - 1 + size == size + (rank - 1));
        lemma_mod_add_multiples_vanish(rank - 1, size);
        lemma_small_mod((rank - 1) as nat, size as nat);
    }
}

/// Going one step forward and then looking one step back lands on the
/// starting rank: a sender is its successor's ring predecessor.
pub proof fn lemma_prev_of_next(rank: int, size: int)
    requires
        0 <= rank < size,
    ensures
        prev_in_ring(next_in_ring(rank, size), size) == rank,
{
    lemma_next_in_ring_val(rank, size);
    lemma_prev_in_ring_val(next_in_ring(rank, size), size);
}

} // verus!
