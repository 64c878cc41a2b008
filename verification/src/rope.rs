//! Index layout of the rotary position encoding.
//!
//! For position `pos`, each head's `head_size`-length slice of the query
//! and key vectors splits into `head_size / 2` consecutive pairs; pair `j`
//! is rotated by the angle whose cosine and sine sit at row `pos`, entry
//! `j` of the two rotary tables. These functions compute those indices.

use vstd::prelude::*;

verus! {

/// Entry `j` of row `pos` in a rotary table of `head_size / 2` entries
/// per position.
pub fn rope_index(pos: usize, head_size: usize, j: usize, seq_len: usize) -> (r: usize)
    requires
        pos < seq_len,
        j < head_size / 2,
        seq_len * (head_size / 2) <= usize::MAX,
    ensures
        r == pos * (head_size / 2) + j,
        r + 1 <= (pos + 1) * (head_size / 2) <= seq_len * (head_size / 2),
{
    let half: usize = head_size / 2;
    proof {
        vstd::arithmetic::mul::lemma_mul_nonnegative(pos as int, half as int);
        vstd::arithmetic::mul::lemma_mul_inequality(pos + 1, seq_len as int, half as int);
        vstd::arithmetic::mul::lemma_mul_is_distributive_add_other_way(half as int, pos as int, 1);
        vstd::arithmetic::mul::lemma_mul_basics(half as int);
    }
    pos * half + j
}

/// Index of the first element of pair `j` in head `h`'s slice of a
/// `dim`-length query or key vector; the pair is this element and the
/// next one, and both lie inside head `h`'s slice.
pub fn pair_index(h: usize, head_size: usize, j: usize, n_heads: usize, dim: usize) -> (r: usize)
    requires
        h < n_heads,
        j < head_size / 2,
        n_heads * head_size <= dim,
    ensures
        r == h * head_size + 2 * j,
        r + 2 <= (h + 1) * head_size <= dim,
{
    proof {
        vstd::arithmetic::mul::lemma_mul_nonnegative(h as int, head_size as int);
        vstd::arithmetic::mul::lemma_mul_inequality(h + 1, n_heads as int, head_size as int);
        vstd::arithmetic::mul::lemma_mul_is_distributive_add_other_way(
            head_size as int,
            h as int,
            1,
        );
        vstd::arithmetic::mul::lemma_mul_basics(head_size as int);
        vstd::arithmetic::div_mod::lemma_fundamental_div_mod(head_size as int, 2);
    }
    h * head_size + 2 * j
}

} // verus!
