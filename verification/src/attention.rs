//! Index layout of the causal attention kernel.
//!
//! Heads share one score buffer of `n_heads * seq_len` entries and one
//! output buffer of `n_heads * head_size` entries, but every head owns a
//! region of each, and at position `pos` it touches exactly the first
//! `pos + 1` score slots of its region. These functions compute the
//! indices the kernel uses, and the lemmas state the two facts the
//! kernel's safety rests on: regions of distinct heads never overlap, and
//! slots past the current position are never touched.

use vstd::prelude::*;

use vstd::set_lib::lemma_int_range;
use vstd::set_lib::set_int_range;

verus! {

/// Slot of head `h`'s score for position `t` in the shared score buffer.
pub open spec fn spec_att_index(h: int, t: int, seq_len: int) -> int {
    h * seq_len + t
}

/// The whole score region head `h` owns.
pub open spec fn att_region(h: int, seq_len: int) -> Set<int> {
    set_int_range(h * seq_len, (h + 1) * seq_len)
}

/// The score slots head `h` touches at position `pos`: its scores for
/// positions `0..=pos` and nothing else.
pub open spec fn causal_att_indices(h: int, pos: int, seq_len: int) -> Set<int> {
    set_int_range(h * seq_len, h * seq_len + pos + 1)
}

/// The slice of a `n_heads * head_size`-length buffer head `h` owns.
pub open spec fn head_region(h: int, head_size: int) -> Set<int> {
    set_int_range(h * head_size, (h + 1) * head_size)
}

/// At position `pos`, head `h` touches exactly `pos + 1` score slots: the
/// slots of positions `0..=pos`, all inside its own region; the slot of
/// any later position is not among them.
pub proof fn lemma_causal_att_indices(h: int, pos: int, seq_len: int)
    requires
        0 <= h,
        0 <= pos < seq_len,
    ensures
        causal_att_indices(h, pos, seq_len).finite(),
        causal_att_indices(h, pos, seq_len).len() == pos + 1,
        causal_att_indices(h, pos, seq_len).subset_of(att_region(h, seq_len)),
        forall|t: int|
            0 <= t <= pos ==> causal_att_indices(h, pos, seq_len).contains(
                #[trigger] spec_att_index(h, t, seq_len),
            ),
        forall|t: int|
            pos < t < seq_len ==> !causal_att_indices(h, pos, seq_len).contains(
                #[trigger] spec_att_index(h, t, seq_len),
            ),
{
    lemma_int_range(h * seq_len, h * seq_len + pos + 1);
    vstd::arithmetic::mul::lemma_mul_is_distributive_add_other_way(seq_len, h, 1);
    vstd::arithmetic::mul::lemma_mul_basics(seq_len);
}

/// Score regions of distinct heads never overlap.
pub proof fn lemma_att_regions_disjoint(h1: int, h2: int, seq_len: int)
    requires
        0 <= h1,
        0 <= h2,
        h1 != h2,
        0 <= seq_len,
    ensures
        att_region(h1, seq_len).disjoint(att_region(h2, seq_len)),
{
    if h1 < h2 {
        vstd::arithmetic::mul::lemma_mul_inequality(h1 + 1, h2, seq_len);
    } else {
        vstd::arithmetic::mul::lemma_mul_inequality(h2 + 1, h1, seq_len);
    }
}

/// Output-buffer slices of distinct heads never overlap.
pub proof fn lemma_head_regions_disjoint(h1: int, h2: int, head_size: int)
    requires
        0 <= h1,
        0 <= h2,
        h1 != h2,
        0 <= head_size,
    ensures
        head_region(h1, head_size).disjoint(head_region(h2, head_size)),
{
    if h1 < h2 {
        vstd::arithmetic::mul::lemma_mul_inequality(h1 + 1, h2, head_size);
    } else {
        vstd::arithmetic::mul::lemma_mul_inequality(h2 + 1, h1, head_size);
    }
}

/// Slot of head `h`'s score for position `t` in the shared score buffer
/// of `n_heads * seq_len` entries.
pub fn att_index(h: usize, t: usize, seq_len: usize, n_heads: usize) -> (r: usize)
    requires
        h < n_heads,
        t < seq_len,
        n_heads * seq_len <= usize::MAX,
    ensures
        r == spec_att_index(h as int, t as int, seq_len as int),
        r + 1 <= (h + 1) * seq_len <= n_heads * seq_len,
{
    proof {
        vstd::arithmetic::mul::lemma_mul_nonnegative(h as int, seq_len as int);
        vstd::arithmetic::mul::lemma_mul_inequality(h + 1, n_heads as int, seq_len as int);
        vstd::arithmetic::mul::lemma_mul_is_distributive_add_other_way(
            seq_len as int,
            h as int,
            1,
        );
        vstd::arithmetic::mul::lemma_mul_basics(seq_len as int);
    }
    h * seq_len + t
}

/// Start of the row of position `pos` in a cache of `seq_len` rows of
/// `dim` words each.
pub fn cache_row_start(pos: usize, dim: usize, seq_len: usize) -> (r: usize)
    requires
        pos < seq_len,
        seq_len * dim <= usize::MAX,
    ensures
        r == pos * dim,
        r + dim <= seq_len * dim,
{
    proof {
        vstd::arithmetic::mul::lemma_mul_nonnegative(pos as int, dim as int);
        vstd::arithmetic::mul::lemma_mul_inequality(pos + 1, seq_len as int, dim as int);
        vstd::arithmetic::mul::lemma_mul_is_distributive_add_other_way(dim as int, pos as int, 1);
        vstd::arithmetic::mul::lemma_mul_basics(dim as int);
    }
    pos * dim
}

/// Start of head `h`'s slice of the cache row of position `t`: the kernel
/// reads `head_size` words from here for one score.
pub fn cache_head_start(
    t: usize,
    h: usize,
    dim: usize,
    head_size: usize,
    n_heads: usize,
    seq_len: usize,
) -> (r: usize)
    requires
        t < seq_len,
        h < n_heads,
        n_heads * head_size <= dim,
        seq_len * dim <= usize::MAX,
    ensures
        r == t * dim + h * head_size,
        r + head_size <= (t + 1) * dim <= seq_len * dim,
{
    proof {
        vstd::arithmetic::mul::lemma_mul_nonnegative(t as int, dim as int);
        vstd::arithmetic::mul::lemma_mul_nonnegative(h as int, head_size as int);
        vstd::arithmetic::mul::lemma_mul_inequality(t + 1, seq_len as int, dim as int);
        vstd::arithmetic::mul::lemma_mul_inequality(h + 1, n_heads as int, head_size as int);
        vstd::arithmetic::mul::lemma_mul_is_distributive_add_other_way(dim as int, t as int, 1);
        vstd::arithmetic::mul::lemma_mul_is_distributive_add_other_way(
            head_size as int,
            h as int,
            1,
        );
        vstd::arithmetic::mul::lemma_mul_basics(dim as int);
        vstd::arithmetic::mul::lemma_mul_basics(head_size as int);
    }
    t * dim + h * head_size
}

} // verus!
