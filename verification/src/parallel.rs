//! Partitioning work across a fixed pool of workers.
//!
//! The matrix-vector primitive may be computed independently per output
//! row, and the attention kernel independently per head. A driver splits
//! the row range into consecutive chunks, one per worker; the chunks
//! cover the range and never overlap, so the workers' writes are disjoint
//! by construction. The pool is sized once at startup to
//! `min(available cores, n_heads)`.

use vstd::prelude::*;

use vstd::set_lib::set_int_range;

verus! {

/// Chunks that split a row range without gap or overlap: each chunk is an
/// ascending range, and each begins where the one before it ended.
pub open spec fn chunks_consecutive(cs: Seq<(usize, usize)>) -> bool {
    &&& forall|i: int| 0 <= i < cs.len() ==> (#[trigger] cs[i]).0 <= cs[i].1
    &&& forall|i: int| 0 <= i < cs.len() - 1 ==> (#[trigger] cs[i + 1]).0 == cs[i].1
}

/// Chunks that partition exactly the rows `0..rows`.
pub open spec fn chunks_cover(cs: Seq<(usize, usize)>, rows: int) -> bool {
    &&& chunks_consecutive(cs)
    &&& cs.len() > 0 ==> cs[0].0 == 0 && cs[cs.len() - 1].1 == rows
    &&& cs.len() == 0 ==> rows == 0
}

/// In a consecutive chunk list, an earlier chunk ends at or before a
/// later chunk begins.
pub proof fn lemma_chunk_order(cs: Seq<(usize, usize)>, i: int, j: int)
    requires
        chunks_consecutive(cs),
        0 <= i < j < cs.len(),
    ensures
        cs[i].1 <= cs[j].0,
    decreases j - i,
{
    if j == i + 1 {
        assert(cs[i + 1].0 == cs[i].1);
    } else {
        lemma_chunk_order(cs, i, j - 1);
        assert(cs[(j - 1) + 1].0 == cs[j - 1].1);
    }
}

/// Chunks of a consecutive list never overlap: the row ranges of two
/// distinct chunks are disjoint, so workers writing their own chunks
/// never write the same row.
pub proof fn lemma_chunks_disjoint(cs: Seq<(usize, usize)>, i: int, j: int)
    requires
        chunks_consecutive(cs),
        0 <= i < cs.len(),
        0 <= j < cs.len(),
        i != j,
    ensures
        set_int_range(cs[i].0 as int, cs[i].1 as int).disjoint(
            set_int_range(cs[j].0 as int, cs[j].1 as int),
        ),
{
    if i < j {
        lemma_chunk_order(cs, i, j);
    } else {
        lemma_chunk_order(cs, j, i);
    }
}

/// Splits `0..rows` into at most `workers` consecutive chunks, none empty
/// and none longer than the ceiling of `rows / workers`; together they
/// cover every row exactly once.
pub fn row_chunks(rows: usize, workers: usize) -> (r: Vec<(usize, usize)>)
    requires
        workers >= 1,
    ensures
        chunks_cover(r@, rows as int),
        forall|i: int| 0 <= i < r@.len() ==> (#[trigger] r@[i]).0 < r@[i].1,
        r@.len() <= workers,
        rows > 0 ==> forall|i: int|
            0 <= i < r@.len() ==> (#[trigger] r@[i]).1 - r@[i].0 <= (rows - 1) / (
            workers as int) + 1,
{
    let mut out: Vec<(usize, usize)> = Vec::new();
    if rows == 0 {
        return out;
    }
    let chunk: usize = (rows - 1) / workers + 1;
    proof {
        vstd::arithmetic::div_mod::lemma_fundamental_div_mod((rows - 1) as int, workers as int);
        vstd::arithmetic::mul::lemma_mul_is_distributive_add(
            workers as int,
            ((rows - 1) as int) / (workers as int),
            1,
        );
        vstd::arithmetic::mul::lemma_mul_basics(workers as int);
        assert(workers * chunk >= rows);
    }
    let mut start: usize = 0;
    while start < rows
        invariant
            1 <= chunk,
            workers >= 1,
            workers * chunk >= rows,
            start <= rows,
            chunks_consecutive(out@),
            out@.len() > 0 ==> out@[0].0 == 0 && out@[out@.len() - 1].1 == start,
            out@.len() == 0 ==> start == 0,
            out@.len() >= 1 ==> (out@.len() - 1) * chunk < rows,
            out@.len() >= 1 ==> (start == out@.len() * chunk || start == rows),
            forall|i: int| 0 <= i < out@.len() ==> (#[trigger] out@[i]).0 < out@[i].1,
            forall|i: int| 0 <= i < out@.len() ==> (#[trigger] out@[i]).1 - out@[i].0 <= chunk,
        decreases rows - start,
    {
        proof {
            let len = out@.len() as int;
            vstd::arithmetic::mul::lemma_mul_is_distributive_add_other_way(
                chunk as int,
                len,
                1,
            );
            vstd::arithmetic::mul::lemma_mul_basics(chunk as int);
        }
        let end: usize = if rows - start < chunk {
            rows
        } else {
            start + chunk
        };
        out.push((start, end));
        start = end;
    }
    proof {
        let len = out@.len() as int;
        if len >= 1 {
            vstd::arithmetic::mul::lemma_mul_strict_inequality_converse(
                len - 1,
                workers as int,
                chunk as int,
            );
        }
    }
    out
}

/// Relies on num_cpus::get: the number of logical CPUs available to this
/// process; its documentation promises at least 1.
#[verifier::external_body]
fn available_cores() -> (r: usize)
    ensures
        r >= 1,
{
    num_cpus::get()
}

/// The pool size a core count and a head count determine: the smaller of
/// the two, since more workers than the `n_heads` independent attention
/// tasks would sit idle.
pub fn pool_size(cores: usize, n_heads: usize) -> (r: usize)
    requires
        cores >= 1,
        n_heads >= 1,
    ensures
        r == if cores < n_heads {
            cores
        } else {
            n_heads
        },
        1 <= r <= n_heads,
        r <= cores,
{
    if cores < n_heads {
        cores
    } else {
        n_heads
    }
}

/// Size of the worker pool, fixed once at startup:
/// `pool_size(available cores, n_heads)`. The core count is the machine's,
/// so only the range can be promised here; `pool_size` pins the decision
/// for every value the machine may report.
pub fn worker_pool_size(n_heads: usize) -> (r: usize)
    requires
        n_heads >= 1,
    ensures
        1 <= r <= n_heads,
{
    pool_size(available_cores(), n_heads)
}

} // verus!
