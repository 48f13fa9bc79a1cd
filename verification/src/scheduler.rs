//! Batch planning: partition an ordered item list into fixed-size chunks,
//! each carrying the starting sequence number that keeps global output
//! numbering equal to collection order no matter how the chunks are
//! interleaved at run time.
use vstd::prelude::*;

verus! {

/// One loaded source image: a session-unique id, its source path, and the
/// data-URI thumbnail text shown for it.
#[derive(Clone)]
pub struct ImageItem {
    pub id: usize,
    pub path: String,
    pub thumbnail_base64: String,
}

/// A contiguous run of at most `chunk_size` items, with the 1-based
/// sequence number of its first item.
#[derive(Clone, Copy)]
pub struct ChunkAssignment {
    pub start_index: usize,
    pub count: usize,
    pub starting_sequence_number: usize,
}

/// Number of items a chunk holds when the batch has `n_items` and the
/// chunk starts at `start`.
pub open spec fn chunk_count(n_items: int, chunk_size: int, start: int) -> int {
    if n_items - start < chunk_size {
        n_items - start
    } else {
        chunk_size
    }
}

/// Partition `n_items` items into chunks of `chunk_size`. Chunk `k` starts
/// at item `k * chunk_size` and its first item carries sequence number
/// `k * chunk_size + 1`, so sequence numbers are pre-assigned before any
/// chunk runs.
pub fn plan_chunks(n_items: usize, chunk_size: usize) -> (r: Vec<ChunkAssignment>)
    requires
        chunk_size >= 1,
        n_items + chunk_size <= usize::MAX,
    ensures
        n_items == 0 ==> r@.len() == 0,
        r@.len() * chunk_size >= n_items,
        r@.len() >= 1 ==> (r@.len() - 1) * chunk_size < n_items,
        forall|k: int|
            0 <= k < r@.len() ==> (#[trigger] r@[k]).start_index == k * chunk_size,
        forall|k: int|
            0 <= k < r@.len() ==> (#[trigger] r@[k]).starting_sequence_number == k * chunk_size
                + 1,
        forall|k: int|
            0 <= k < r@.len() ==> (#[trigger] r@[k]).count == chunk_count(
                n_items as int,
                chunk_size as int,
                k * chunk_size,
            ),
        forall|k: int| 0 <= k < r@.len() ==> 1 <= (#[trigger] r@[k]).count <= chunk_size,
{
    let mut r: Vec<ChunkAssignment> = Vec::new();
    let mut start: usize = 0;
    proof {
        assert(r@.len() * chunk_size == 0) by (nonlinear_arith)
            requires
                r@.len() == 0,
        ;
    }
    while start < n_items
        invariant
            chunk_size >= 1,
            n_items + chunk_size <= usize::MAX,
            start == r@.len() * chunk_size,
            r@.len() >= 1 ==> start - chunk_size < n_items,
            start <= n_items + chunk_size - 1,
            forall|k: int|
                0 <= k < r@.len() ==> (#[trigger] r@[k]).start_index == k * chunk_size,
            forall|k: int|
                0 <= k < r@.len() ==> (#[trigger] r@[k]).starting_sequence_number == k
                    * chunk_size + 1,
            forall|k: int|
                0 <= k < r@.len() ==> (#[trigger] r@[k]).count == chunk_count(
                    n_items as int,
                    chunk_size as int,
                    k * chunk_size,
                ),
            forall|k: int| 0 <= k < r@.len() ==> 1 <= (#[trigger] r@[k]).count <= chunk_size,
        decreases n_items + chunk_size - start,
    {
        let count = if n_items - start < chunk_size {
            n_items - start
        } else {
            chunk_size
        };
        r.push(
            ChunkAssignment { start_index: start, count, starting_sequence_number: start + 1 },
        );
        proof {
            assert(r@.len() * chunk_size == (r@.len() - 1) * chunk_size + chunk_size)
                by (nonlinear_arith);
        }
        start += chunk_size;
    }
    proof {
        if r@.len() >= 1 {
            assert((r@.len() - 1) * chunk_size == r@.len() * chunk_size - chunk_size)
                by (nonlinear_arith);
        }
    }
    r
}

/// Ordering law: under the chunk layout `plan_chunks` guarantees, the item
/// at 0-based collection position `p` lies in chunk `p / chunk_size`, and
/// the sequence number that chunk assigns to it is exactly `p + 1` — the
/// global numbering matches collection order regardless of chunk
/// completion order.
pub proof fn lemma_sequence_is_position(
    chunks: Seq<ChunkAssignment>,
    n_items: int,
    chunk_size: int,
    p: int,
)
    requires
        chunk_size >= 1,
        0 <= p < n_items,
        chunks.len() * chunk_size >= n_items,
        forall|k: int|
            0 <= k < chunks.len() ==> (#[trigger] chunks[k]).start_index == k * chunk_size,
        forall|k: int|
            0 <= k < chunks.len() ==> (#[trigger] chunks[k]).starting_sequence_number == k
                * chunk_size + 1,
        forall|k: int|
            0 <= k < chunks.len() ==> (#[trigger] chunks[k]).count == chunk_count(
                n_items,
                chunk_size,
                k * chunk_size,
            ),
    ensures
        0 <= p / chunk_size < chunks.len(),
        chunks[p / chunk_size].start_index <= p,
        p < chunks[p / chunk_size].start_index + chunks[p / chunk_size].count,
        chunks[p / chunk_size].starting_sequence_number + (p - chunks[p / chunk_size].start_index)
            == p + 1,
{
    let k = p / chunk_size;
    vstd::arithmetic::div_mod::lemma_fundamental_div_mod(p, chunk_size);
    vstd::arithmetic::div_mod::lemma_mod_bound(p, chunk_size);
    vstd::arithmetic::mul::lemma_mul_is_commutative(k, chunk_size);
    assert(k * chunk_size <= p);
    assert(p < k * chunk_size + chunk_size);
    assert(k >= 0) by {
        vstd::arithmetic::div_mod::lemma_div_pos_is_pos(p, chunk_size);
    }
    assert(k < chunks.len()) by {
        if k >= chunks.len() {
            vstd::arithmetic::mul::lemma_mul_inequality(chunks.len() as int, k, chunk_size);
            assert(k * chunk_size >= chunks.len() * chunk_size);
            assert(p >= n_items);
        }
    }
}

/// Fixed name of the output subdirectory created under the destination
/// root.
pub fn output_subdir_name() -> (r: &'static str)
    ensures
        r@ == "SPL"@,
{
    "SPL"
}

} // verus!
