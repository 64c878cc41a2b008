//! Sizes and offsets of the weight sections of a checkpoint payload.
//!
//! The payload is one run of 32-bit words directly after the header, in a
//! fixed order: embedding table; per-layer attention-norm vectors; the four
//! attention projections; per-layer feed-forward-norm vectors; the three
//! feed-forward projections; the final norm vector; the two rotary tables;
//! and, only when the embedding table is not shared, the output projection.
//! All offsets and lengths here are in words, relative to the payload start.

use vstd::prelude::*;

use crate::config::Config;

verus! {

/// Words in one attention projection matrix (`dim x dim`).
pub open spec fn mat_attn_words(c: Config) -> int {
    c.dim * c.dim
}

/// Words in one feed-forward projection matrix (`dim x hidden_dim`,
/// or `hidden_dim x dim`; both hold the same number of words).
pub open spec fn mat_ffn_words(c: Config) -> int {
    c.dim * c.hidden_dim
}

/// Words in the embedding table (`vocab_size x dim`).
pub open spec fn emb_words(c: Config) -> int {
    c.vocab_size * c.dim
}

/// Words in one all-layer run of norm vectors.
pub open spec fn norm_run_words(c: Config) -> int {
    c.n_layers * c.dim
}

/// Words in one all-layer run of attention projections.
pub open spec fn attn_run_words(c: Config) -> int {
    c.n_layers * mat_attn_words(c)
}

/// Words in one all-layer run of feed-forward projections.
pub open spec fn ffn_run_words(c: Config) -> int {
    c.n_layers * mat_ffn_words(c)
}

/// Words in one rotary table (`seq_len x head_size/2`).
pub open spec fn rope_words(c: Config) -> int {
    c.seq_len * (c.spec_head_size() / 2)
}

/// Word offset of the embedding table.
pub open spec fn emb_off(c: Config) -> int {
    0
}

/// Word offset of the run of attention-norm vectors.
pub open spec fn rms_attn_off(c: Config) -> int {
    emb_off(c) + emb_words(c)
}

/// Word offset of the run of query projections.
pub open spec fn wq_off(c: Config) -> int {
    rms_attn_off(c) + norm_run_words(c)
}

/// Word offset of the run of key projections.
pub open spec fn wk_off(c: Config) -> int {
    wq_off(c) + attn_run_words(c)
}

/// Word offset of the run of value projections.
pub open spec fn wv_off(c: Config) -> int {
    wk_off(c) + attn_run_words(c)
}

/// Word offset of the run of attention output projections.
pub open spec fn wo_off(c: Config) -> int {
    wv_off(c) + attn_run_words(c)
}

/// Word offset of the run of feed-forward-norm vectors.
pub open spec fn rms_ffn_off(c: Config) -> int {
    wo_off(c) + attn_run_words(c)
}

/// Word offset of the run of gate projections.
pub open spec fn w1_off(c: Config) -> int {
    rms_ffn_off(c) + norm_run_words(c)
}

/// Word offset of the run of down projections.
pub open spec fn w2_off(c: Config) -> int {
    w1_off(c) + ffn_run_words(c)
}

/// Word offset of the run of up projections.
pub open spec fn w3_off(c: Config) -> int {
    w2_off(c) + ffn_run_words(c)
}

/// Word offset of the final norm vector.
pub open spec fn rms_final_off(c: Config) -> int {
    w3_off(c) + ffn_run_words(c)
}

/// Word offset of the rotary table of real components.
pub open spec fn rope_real_off(c: Config) -> int {
    rms_final_off(c) + c.dim
}

/// Word offset of the rotary table of imaginary components.
pub open spec fn rope_imag_off(c: Config) -> int {
    rope_real_off(c) + rope_words(c)
}

/// Word offset of the output projection, where one is present.
pub open spec fn wcls_off(c: Config) -> int {
    rope_imag_off(c) + rope_words(c)
}

/// Words the whole payload holds.
pub open spec fn total_words(c: Config) -> int {
    wcls_off(c) + if c.shared_weights {
        0
    } else {
        emb_words(c)
    }
}

/// The facts about section sizes that the loader's arithmetic rests on:
/// no section has negative length, and an all-layer run is at least as
/// long as any single layer's share of it.
pub proof fn lemma_layout_bounds(c: Config)
    requires
        c.wf(),
    ensures
        0 <= mat_attn_words(c),
        0 <= mat_ffn_words(c),
        0 <= emb_words(c),
        0 <= norm_run_words(c),
        0 <= attn_run_words(c),
        0 <= ffn_run_words(c),
        0 <= rope_words(c),
        mat_attn_words(c) <= attn_run_words(c),
        mat_ffn_words(c) <= ffn_run_words(c),
        c.dim <= norm_run_words(c),
        c.dim <= emb_words(c),
{
    let d = c.dim as int;
    let nl = c.n_layers as int;
    vstd::arithmetic::mul::lemma_mul_basics(d);
    vstd::arithmetic::mul::lemma_mul_basics(mat_attn_words(c));
    vstd::arithmetic::mul::lemma_mul_basics(mat_ffn_words(c));
    vstd::arithmetic::mul::lemma_mul_nonnegative(d, d);
    vstd::arithmetic::mul::lemma_mul_nonnegative(d, c.hidden_dim as int);
    vstd::arithmetic::mul::lemma_mul_nonnegative(c.vocab_size as int, d);
    vstd::arithmetic::mul::lemma_mul_nonnegative(nl, d);
    vstd::arithmetic::mul::lemma_mul_nonnegative(nl, mat_attn_words(c));
    vstd::arithmetic::mul::lemma_mul_nonnegative(nl, mat_ffn_words(c));
    vstd::arithmetic::mul::lemma_mul_nonnegative(c.seq_len as int, c.spec_head_size() / 2);
    vstd::arithmetic::mul::lemma_mul_inequality(1, nl, mat_attn_words(c));
    vstd::arithmetic::mul::lemma_mul_inequality(1, nl, mat_ffn_words(c));
    vstd::arithmetic::mul::lemma_mul_inequality(1, nl, d);
    vstd::arithmetic::mul::lemma_mul_inequality(1, c.vocab_size as int, d);
    vstd::arithmetic::mul::lemma_mul_is_commutative(c.vocab_size as int, d);
}

} // verus!
