//! Collective operators, built on the point-to-point layer with one rank
//! designated root.
//!
//! Broadcast replicates the root's buffer into every rank's same-shape
//! placeholder. Scatter partitions the root's sequence into equal
//! contiguous chunks, one per rank in rank order; when the group size does
//! not divide the sequence length, the fixed remainder rule of this library
//! is that the `total % size` trailing elements are kept back by the root
//! and not transmitted.

use vstd::prelude::*;

verus! {

use crate::error::CommError;
use vstd::arithmetic::div_mod::lemma_div_pos_is_pos;
use vstd::arithmetic::div_mod::lemma_fundamental_div_mod;
use vstd::arithmetic::div_mod::lemma_mod_bound;
use vstd::arithmetic::mul::lemma_mul_inequality;
use vstd::arithmetic::mul::lemma_mul_is_distributive_add_other_way;

/// How many elements each rank receives when `total` elements are
/// scattered over `size` ranks.
pub open spec fn chunk_len(total: int, size: int) -> int {
    total / size
}

/// The contiguous chunk that rank `rank` receives from a scatter of
/// `numbers` over `size` ranks.
pub open spec fn chunk_of<T>(numbers: Seq<T>, rank: int, size: int) -> Seq<T> {
    let c = chunk_len(numbers.len() as int, size);
    numbers.subrange(rank * c, (rank + 1) * c)
}

/// Every rank's chunk lies inside the scattered sequence.
pub proof fn lemma_chunk_in_bounds(total: int, rank: int, size: int)
    requires
        0 <= total,
        0 <= rank < size,
    ensures
        0 <= chunk_len(total, size),
        0 <= rank * chunk_len(total, size),
        rank * chunk_len(total, size) <= (rank + 1) * chunk_len(total, size),
        (rank + 1) * chunk_len(total, size) <= total,
{
    let c = chunk_len(total, size);
    lemma_div_pos_is_pos(total, size);
    lemma_mul_inequality(0, rank, c);
    lemma_mul_inequality(rank, rank + 1, c);
    lemma_mul_inequality(rank + 1, size, c);
    lemma_fundamental_div_mod(total, size);
    lemma_mod_bound(total, size);
}

/// A buffer of `count` copies of `value`: the same-shape placeholder a
/// non-root rank readies before a collective fills it.
pub fn placeholder<T: Copy>(count: usize, value: T) -> (r: Vec<T>)
    ensures
        r@.len() == count,
        forall|i: int| 0 <= i < count ==> r@[i] == value,
{
    let mut out: Vec<T> = Vec::new();
    let mut i: usize = 0;
    while i < count
        invariant
            i <= count,
            out@.len() == i,
            forall|j: int| 0 <= j < i ==> out@[j] == value,
        decreases count - i,
    {
        out.push(value);
        i = i + 1;
    }
    out
}

/// Broadcast as one rank takes part in it: `value` is the root's
/// authoritative buffer, `buf` this rank's placeholder. On success the
/// placeholder holds exactly the root's value; a placeholder whose size
/// disagrees with the value's fails with `ShapeMismatch` and is left
/// untouched.
pub fn broadcast_into(value: &Vec<i32>, buf: &mut Vec<i32>) -> (r: Result<(), CommError>)
    ensures
        r is Ok <==> old(buf)@.len() == value@.len(),
        r is Ok ==> final(buf)@ == value@,
        old(buf)@.len() != value@.len() ==> r == Err::<(), CommError>(CommError::ShapeMismatch)
            && final(buf)@ == old(buf)@,
{
    if buf.len() != value.len() {
        return Err(CommError::ShapeMismatch);
    }
    let mut incoming: Vec<i32> = Vec::new();
    let mut i: usize = 0;
    while i < value.len()
        invariant
            i <= value@.len(),
            incoming@ == value@.subrange(0, i as int),
        decreases value@.len() - i,
    {
        incoming.push(value[i]);
        proof {
            assert(value@.subrange(0, i as int).push(value@[i as int]) =~= value@.subrange(
                0,
                i as int + 1,
            ));
        }
        i = i + 1;
    }
    proof {
        assert(value@.subrange(0, value@.len() as int) =~= value@);
    }
    *buf = incoming;
    Ok(())
}

/// Broadcast of a single scalar: after the round, this rank's local value
/// is the root's value, whatever placeholder it held before.
pub fn broadcast_scalar(root_value: i32, local: &mut i32)
    ensures
        *final(local) == root_value,
{
    *local = root_value;
}

/// Every rank's contents after one completed broadcast round of `value`,
/// listed in rank order.
pub open spec fn broadcast_post(value: Seq<i32>, bufs: Seq<Seq<i32>>) -> bool {
    forall|i: int| 0 <= i < bufs.len() ==> bufs[i] == value
}

/// Broadcast idempotence: two completed broadcast rounds with the same
/// root value leave every rank with identical contents both times, and
/// each rank's post-broadcast contents equal the root's pre-broadcast
/// value.
pub proof fn lemma_broadcast_idempotent(
    value: Seq<i32>,
    first: Seq<Seq<i32>>,
    second: Seq<Seq<i32>>,
)
    requires
        first.len() == second.len(),
        broadcast_post(value, first),
        broadcast_post(value, second),
    ensures
        first =~= second,
        forall|i: int| 0 <= i < first.len() ==> first[i] == value,
{
    assert forall|i: int| 0 <= i < first.len() implies first[i] == second[i] by {
        assert(first[i] == value);
        assert(second[i] == value);
    }
}

/// One whole broadcast round: the root's buffer is replicated into every
/// rank's placeholder; the returned rows, one per rank, all equal the
/// root's value. Fails with `InvalidRank` on an empty group.
pub fn run_broadcast(value: &Vec<i32>, size: i32) -> (r: Result<Vec<Vec<i32>>, CommError>)
    ensures
        r is Ok <==> 1 <= size,
        r matches Ok(rows) ==> rows@.len() == size as int && forall|t: int|
            0 <= t < size ==> rows@[t]@ == value@,
        size < 1 ==> r == Err::<Vec<Vec<i32>>, CommError>(CommError::InvalidRank),
{
    if size < 1 {
        return Err(CommError::InvalidRank);
    }
    let mut rows: Vec<Vec<i32>> = Vec::new();
    let mut t: i32 = 0;
    while t < size
        invariant
            0 <= t <= size,
            rows@.len() == t as int,
            forall|j: int| 0 <= j < t ==> rows@[j]@ == value@,
        decreases size - t,
    {
        let mut buf = placeholder(value.len(), 0i32);
        let outcome = broadcast_into(value, &mut buf);
        proof {
            assert(outcome is Ok);
        }
        rows.push(buf);
        t = t + 1;
    }
    Ok(rows)
}

/// The value rank `rank` holds before the root-announcement round: the
/// root holds the announced value, everyone else a zero placeholder.
pub fn announced_value(rank: i32) -> (v: i32)
    ensures
        rank == 0 ==> v == 100,
        rank != 0 ==> v == 0,
{
    if rank == 0 {
        100
    } else {
        0
    }
}

/// The root-announcement pattern: every rank starts from its own
/// placeholder and ends holding the root's value. Row `t` is what rank `t`
/// holds after the round. Fails with `InvalidRank` on an empty group.
pub fn run_value_broadcast(size: i32) -> (r: Result<Vec<i32>, CommError>)
    ensures
        r is Ok <==> 1 <= size,
        r matches Ok(rows) ==> rows@.len() == size as int && forall|t: int|
            0 <= t < size ==> rows@[t] == 100,
        size < 1 ==> r == Err::<Vec<i32>, CommError>(CommError::InvalidRank),
{
    if size < 1 {
        return Err(CommError::InvalidRank);
    }
    let root_value = announced_value(0);
    let mut rows: Vec<i32> = Vec::new();
    let mut t: i32 = 0;
    while t < size
        invariant
            0 <= t <= size,
            root_value == 100,
            rows@.len() == t as int,
            forall|j: int| 0 <= j < t ==> rows@[j] == 100,
        decreases size - t,
    {
        let mut local = announced_value(t);
        broadcast_scalar(root_value, &mut local);
        rows.push(local);
        t = t + 1;
    }
    Ok(rows)
}

/// The chunk of `numbers` owed to `rank` in a scatter over `size` ranks;
/// fails with `InvalidRank` for a rank outside `[0, size)`.
pub fn scatter_chunk(numbers: &Vec<u32>, rank: i32, size: i32) -> (r: Result<Vec<u32>, CommError>)
    ensures
        r is Ok <==> 0 <= rank < size,
        r matches Ok(c) ==> c@ == chunk_of(numbers@, rank as int, size as int),
        !(0 <= rank < size) ==> r == Err::<Vec<u32>, CommError>(CommError::InvalidRank),
{
    if !(0 <= rank && rank < size) {
        return Err(CommError::InvalidRank);
    }
    proof {
        lemma_chunk_in_bounds(numbers@.len() as int, rank as int, size as int);
        lemma_mul_is_distributive_add_other_way(
            chunk_len(numbers@.len() as int, size as int),
            rank as int,
            1,
        );
    }
    let c: usize = numbers.len() / (size as usize);
    let start: usize = (rank as usize) * c;
    let stop: usize = start + c;
    let mut out: Vec<u32> = Vec::new();
    let mut i: usize = start;
    while i < stop
        invariant
            start <= i <= stop,
            stop <= numbers@.len(),
            out@ == numbers@.subrange(start as int, i as int),
        decreases stop - i,
    {
        out.push(numbers[i]);
        proof {
            assert(numbers@.subrange(start as int, i as int).push(numbers@[i as int])
                =~= numbers@.subrange(start as int, i as int + 1));
        }
        i = i + 1;
    }
    Ok(out)
}

/// Scatter as one rank receives it: `buf` is the rank's pre-agreed
/// fixed-size receive buffer; on success it holds exactly the rank's
/// chunk. Fails with `InvalidRank` for a bad rank and with `ShapeMismatch`
/// for a buffer whose size is not the chunk size, leaving the buffer
/// untouched either way.
pub fn scatter_into(numbers: &Vec<u32>, rank: i32, size: i32, buf: &mut Vec<u32>) -> (r: Result<
    (),
    CommError,
>)
    ensures
        r is Ok <==> (0 <= rank < size && old(buf)@.len() == chunk_len(
            numbers@.len() as int,
            size as int,
        )),
        r is Ok ==> final(buf)@ == chunk_of(numbers@, rank as int, size as int),
        !(0 <= rank < size) ==> r == Err::<(), CommError>(CommError::InvalidRank) && final(buf)@
            == old(buf)@,
        (0 <= rank < size && old(buf)@.len() != chunk_len(numbers@.len() as int, size as int))
            ==> r == Err::<(), CommError>(CommError::ShapeMismatch) && final(buf)@ == old(buf)@,
{
    match scatter_chunk(numbers, rank, size) {
        Ok(chunk) => {
            proof {
                lemma_chunk_in_bounds(numbers@.len() as int, rank as int, size as int);
                lemma_mul_is_distributive_add_other_way(
                    chunk_len(numbers@.len() as int, size as int),
                    rank as int,
                    1,
                );
            }
            if buf.len() != chunk.len() {
                return Err(CommError::ShapeMismatch);
            }
            *buf = chunk;
            Ok(())
        },
        Err(e) => Err(e),
    }
}

/// The first `k` chunks of a scatter of `numbers`, concatenated in rank
/// order.
pub open spec fn chunks_concat<T>(numbers: Seq<T>, size: int, k: int) -> Seq<T>
    decreases k,
{
    if k <= 0 {
        Seq::empty()
    } else {
        chunks_concat(numbers, size, k - 1) + chunk_of(numbers, k - 1, size)
    }
}

proof fn lemma_chunks_concat_prefix<T>(numbers: Seq<T>, size: int, k: int)
    requires
        1 <= size,
        0 <= k <= size,
    ensures
        chunks_concat(numbers, size, k) =~= numbers.take(k * chunk_len(
            numbers.len() as int,
            size,
        )),
    decreases k,
{
    let c = chunk_len(numbers.len() as int, size);
    if k == 0 {
        assert(chunks_concat(numbers, size, 0) =~= numbers.take(0 * c));
    } else {
        lemma_chunks_concat_prefix(numbers, size, k - 1);
        lemma_chunk_in_bounds(numbers.len() as int, k - 1, size);
        lemma_mul_is_distributive_add_other_way(c, k - 1, 1);
        assert(chunks_concat(numbers, size, k) =~= numbers.take(k * c));
    }
}

/// Scatter completeness: when the group size divides the sequence length,
/// the per-rank chunks, concatenated in rank order, rebuild the whole
/// sequence.
pub proof fn lemma_scatter_completeness<T>(numbers: Seq<T>, size: int)
    requires
        1 <= size,
        numbers.len() as int % size == 0,
    ensures
        chunks_concat(numbers, size, size) == numbers,
{
    let total = numbers.len() as int;
    let c = chunk_len(total, size);
    lemma_chunks_concat_prefix(numbers, size, size);
    lemma_fundamental_div_mod(total, size);
    assert(size * c == total);
    assert(numbers.take(total) =~= numbers);
    assert(chunks_concat(numbers, size, size) =~= numbers);
}

/// One whole scatter round: every rank, the root included, readies a
/// buffer of the pre-agreed chunk size and ends with its own chunk; the
/// returned rows are listed in rank order. Fails with `InvalidRank` on an
/// empty group.
pub fn run_scatter(numbers: &Vec<u32>, size: i32) -> (r: Result<Vec<Vec<u32>>, CommError>)
    ensures
        r is Ok <==> 1 <= size,
        r matches Ok(rows) ==> rows@.len() == size as int && forall|t: int|
            0 <= t < size ==> rows@[t]@ == chunk_of(numbers@, t, size as int),
        size < 1 ==> r == Err::<Vec<Vec<u32>>, CommError>(CommError::InvalidRank),
{
    if size < 1 {
        return Err(CommError::InvalidRank);
    }
    let c: usize = numbers.len() / (size as usize);
    let mut rows: Vec<Vec<u32>> = Vec::new();
    let mut t: i32 = 0;
    while t < size
        invariant
            0 <= t <= size,
            1 <= size,
            c == chunk_len(numbers@.len() as int, size as int),
            rows@.len() == t as int,
            forall|j: int| 0 <= j < t ==> rows@[j]@ == chunk_of(numbers@, j, size as int),
        decreases size - t,
    {
        let mut buf = placeholder(c, 0u32);
        let outcome = scatter_into(numbers, t, size, &mut buf);
        proof {
            assert(outcome is Ok);
        }
        rows.push(buf);
        t = t + 1;
    }
    Ok(rows)
}

} // verus!
