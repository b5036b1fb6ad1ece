//! The random-length transfer scenario: rank 0 shuffles a fixed pool of
//! numbers, draws a transfer length, and sends that prefix to rank 1,
//! whose variable-length receive reports the count actually transmitted.
//! The shuffle and the draw come from a general-purpose random number
//! generator, consumed as an opaque collaborator: the contracts here state
//! what holds of every outcome, never which outcome comes.

use vstd::prelude::*;

verus! {

use crate::channel::Status;
use crate::channel::deliver;

/// The numbers `0 .. n`, in order.
pub open spec fn range_seq(n: nat) -> Seq<u32> {
    Seq::new(n, |i: int| i as u32)
}

/// Builds the ordered pool `0 .. n`.
pub fn iota(n: u32) -> (r: Vec<u32>)
    ensures
        r@ == range_seq(n as nat),
{
    let mut out: Vec<u32> = Vec::new();
    let mut i: u32 = 0;
    while i < n
        invariant
            i <= n,
            out@.len() == i as nat,
            forall|j: int| 0 <= j < i ==> out@[j] == j,
        decreases n - i,
    {
        out.push(i);
        i = i + 1;
    }
    proof {
        assert(out@ =~= range_seq(n as nat));
    }
    out
}

/// Relies on rand's `thread_rng` and `Rng::gen_range`: a uniformly drawn
/// integer in `[0, bound)`; nothing more is promised of any single draw.
#[verifier::external_body]
fn random_below(bound: u32) -> (r: u32)
    requires
        1 <= bound,
    ensures
        r < bound,
{
    rand::Rng::gen_range(&mut rand::thread_rng(), 0..bound)
}

/// Relies on rand's `SliceRandom::shuffle`: an in-place permutation of the
/// buffer — same length, same elements with the same multiplicities; which
/// permutation comes out is not promised.
#[verifier::external_body]
fn shuffle_buffer(values: &mut Vec<u32>)
    ensures
        final(values)@.len() == old(values)@.len(),
        final(values)@.to_multiset() == old(values)@.to_multiset(),
{
    rand::seq::SliceRandom::shuffle(values.as_mut_slice(), &mut rand::thread_rng());
}

/// The sender's pool: the numbers `0 .. n`, each exactly once, in an order
/// this contract does not pin down.
pub fn shuffled_pool(n: u32) -> (r: Vec<u32>)
    ensures
        r@.len() == n as nat,
        r@.to_multiset() == range_seq(n as nat).to_multiset(),
{
    let mut pool = iota(n);
    shuffle_buffer(&mut pool);
    pool
}

/// Whatever order a shuffle chose, a sequence with the contents of
/// `0 .. n` still holds numbers below `n` only, each exactly once.
pub proof fn lemma_pool_elements(s: Seq<u32>, n: nat)
    requires
        n <= u32::MAX,
        s.to_multiset() == range_seq(n).to_multiset(),
    ensures
        forall|i: int| 0 <= i < s.len() ==> s[i] < n,
        s.no_duplicates(),
{
    broadcast use vstd::seq_lib::group_to_multiset_ensures;

    let pool = range_seq(n);
    assert forall|i: int| 0 <= i < s.len() implies s[i] < n by {
        assert(s.contains(s[i]));
        assert(pool.to_multiset().count(s[i]) > 0);
        assert(pool.contains(s[i]));
        let j = choose|j: int| 0 <= j < pool.len() && pool[j] == s[i];
        assert(s[i] == j as u32);
    }
    assert(pool.no_duplicates()) by {
        assert forall|i: int, j: int|
            0 <= i < pool.len() && 0 <= j < pool.len() && i != j implies pool[i] != pool[j] by {
            assert(pool[i] == i as u32);
            assert(pool[j] == j as u32);
        }
    }
    pool.lemma_multiset_has_no_duplicates();
    s.lemma_multiset_has_no_duplicates_conv();
}

/// Rank 0's transfer for one run: a freshly shuffled pool of `0 .. max`,
/// cut to a freshly drawn length. Whatever was drawn, the prefix is
/// strictly shorter than `max` and holds distinct numbers below `max`.
pub fn random_payload(max: u32) -> (r: Vec<u32>)
    requires
        1 <= max,
    ensures
        r@.len() < max as nat,
        forall|i: int| 0 <= i < r@.len() ==> r@[i] < max,
        r@.no_duplicates(),
{
    let pool = shuffled_pool(max);
    proof {
        lemma_pool_elements(pool@, max as nat);
    }
    let len = random_below(max);
    let mut out: Vec<u32> = Vec::new();
    let mut i: usize = 0;
    while i < len as usize
        invariant
            i <= len as nat,
            len < max,
            pool@.len() == max as nat,
            forall|k: int| 0 <= k < pool@.len() ==> pool@[k] < max,
            pool@.no_duplicates(),
            out@ == pool@.subrange(0, i as int),
        decreases len as int - i as int,
    {
        out.push(pool[i]);
        proof {
            assert(pool@.subrange(0, i as int).push(pool@[i as int]) =~= pool@.subrange(
                0,
                i as int + 1,
            ));
        }
        i = i + 1;
    }
    out
}

/// One whole run: the drawn prefix crosses from rank 0 to rank 1, whose
/// variable-length receive reports the true origin and the exact count
/// transmitted — a count rank 1 did not know beforehand.
pub fn run_random_transfer(max: u32) -> (r: (Vec<u32>, Status))
    requires
        1 <= max,
    ensures
        r.1.count == r.0@.len(),
        r.1.source_rank == 0,
        r.0@.len() < max as nat,
        forall|i: int| 0 <= i < r.0@.len() ==> r.0@[i] < max,
        r.0@.no_duplicates(),
{
    let payload = random_payload(max);
    deliver(0, 0, payload)
}

} // verus!
