//! The weight store: every array of a checkpoint payload, decoded into
//! 32-bit little-endian words at its exact place in the file.
//!
//! A word here is the raw bit pattern of one serialized weight; the library
//! never interprets it numerically. The loader's contract pins each array to
//! the precise byte range of the payload it came from, so a caller knows the
//! store is the checkpoint, word for word.

use vstd::prelude::*;

use crate::bytes::{le_word, read_le_word};
use crate::config::{header_ok, spec_config_of, spec_header_error, Config, HeaderError};
use crate::HEADER_BYTES;
use crate::layout::{
    attn_run_words, emb_off, emb_words, ffn_run_words, lemma_layout_bounds, mat_attn_words,
    mat_ffn_words, norm_run_words, rms_attn_off, rms_ffn_off, rms_final_off, rope_imag_off,
    rope_real_off, rope_words, total_words, w1_off, w2_off, w3_off, wcls_off, wk_off, wo_off,
    wq_off, wv_off,
};

verus! {

/// Why a payload was rejected: it holds fewer bytes than the configuration
/// demands.
#[derive(Debug, Clone, Copy, PartialEq, Eq, Structural)]
pub enum LoadError {
    Truncated,
}

/// Why a whole checkpoint buffer was rejected: its header, or a payload
/// shorter than the header demands.
#[derive(Debug, Clone, Copy, PartialEq, Eq, Structural)]
pub enum CheckpointError {
    Header(HeaderError),
    Truncated,
}

/// The `len` words starting at word `off` of the payload that begins at
/// byte `base` of `s`.
pub open spec fn section(s: Seq<u8>, base: int, off: int, len: int) -> Seq<u32> {
    Seq::new(len as nat, |i: int| le_word(s, base + 4 * (off + i)))
}

/// One layer's weights: norm vectors and the seven projection matrices,
/// each in checkpoint order. Matrices are row-major.
pub struct LayerWeights {
    pub rms_attn: Vec<u32>,
    pub wq: Vec<u32>,
    pub wk: Vec<u32>,
    pub wv: Vec<u32>,
    pub wo: Vec<u32>,
    pub rms_ffn: Vec<u32>,
    pub w1: Vec<u32>,
    pub w2: Vec<u32>,
    pub w3: Vec<u32>,
}

impl LayerWeights {
    /// Every array has the length the configuration demands.
    pub open spec fn wf(self, c: Config) -> bool {
        &&& self.rms_attn@.len() == c.dim
        &&& self.wq@.len() == mat_attn_words(c)
        &&& self.wk@.len() == mat_attn_words(c)
        &&& self.wv@.len() == mat_attn_words(c)
        &&& self.wo@.len() == mat_attn_words(c)
        &&& self.rms_ffn@.len() == c.dim
        &&& self.w1@.len() == mat_ffn_words(c)
        &&& self.w2@.len() == mat_ffn_words(c)
        &&& self.w3@.len() == mat_ffn_words(c)
    }

    /// Every array equals layer `l`'s slice of its all-layer run in the
    /// payload at byte `base` of `s`.
    pub open spec fn matches(self, c: Config, s: Seq<u8>, base: int, l: int) -> bool {
        &&& self.rms_attn@ == section(s, base, rms_attn_off(c) + l * c.dim, c.dim as int)
        &&& self.wq@ == section(s, base, wq_off(c) + l * mat_attn_words(c), mat_attn_words(c))
        &&& self.wk@ == section(s, base, wk_off(c) + l * mat_attn_words(c), mat_attn_words(c))
        &&& self.wv@ == section(s, base, wv_off(c) + l * mat_attn_words(c), mat_attn_words(c))
        &&& self.wo@ == section(s, base, wo_off(c) + l * mat_attn_words(c), mat_attn_words(c))
        &&& self.rms_ffn@ == section(s, base, rms_ffn_off(c) + l * c.dim, c.dim as int)
        &&& self.w1@ == section(s, base, w1_off(c) + l * mat_ffn_words(c), mat_ffn_words(c))
        &&& self.w2@ == section(s, base, w2_off(c) + l * mat_ffn_words(c), mat_ffn_words(c))
        &&& self.w3@ == section(s, base, w3_off(c) + l * mat_ffn_words(c), mat_ffn_words(c))
    }
}

/// Every weight array of a checkpoint, plus the two rotary tables.
/// The output projection `wcls` is present exactly when the embedding
/// table is not shared with it.
pub struct LlamaWeights {
    pub embeddings: Vec<u32>,
    pub layers: Vec<LayerWeights>,
    pub rms_final: Vec<u32>,
    pub rope_real: Vec<u32>,
    pub rope_imag: Vec<u32>,
    pub wcls: Option<Vec<u32>>,
}

impl LlamaWeights {
    /// Every array has the length the configuration demands.
    pub open spec fn wf(self, c: Config) -> bool {
        &&& self.embeddings@.len() == emb_words(c)
        &&& self.layers@.len() == c.n_layers
        &&& forall|l: int| 0 <= l < c.n_layers ==> #[trigger] self.layers@[l].wf(c)
        &&& self.rms_final@.len() == c.dim
        &&& self.rope_real@.len() == rope_words(c)
        &&& self.rope_imag@.len() == rope_words(c)
        &&& self.wcls is Some <==> !c.shared_weights
        &&& self.wcls is Some ==> self.wcls->Some_0@.len() == emb_words(c)
    }

    /// The store is exactly the payload at byte `base` of `s`: every array
    /// equals the words of its section, in checkpoint order.
    pub open spec fn matches(self, c: Config, s: Seq<u8>, base: int) -> bool {
        &&& self.embeddings@ == section(s, base, emb_off(c), emb_words(c))
        &&& self.layers@.len() == c.n_layers
        &&& forall|l: int|
            0 <= l < c.n_layers ==> #[trigger] self.layers@[l].matches(c, s, base, l)
        &&& self.rms_final@ == section(s, base, rms_final_off(c), c.dim as int)
        &&& self.rope_real@ == section(s, base, rope_real_off(c), rope_words(c))
        &&& self.rope_imag@ == section(s, base, rope_imag_off(c), rope_words(c))
        &&& self.wcls is Some <==> !c.shared_weights
        &&& self.wcls is Some ==> self.wcls->Some_0@ == section(
            s,
            base,
            wcls_off(c),
            emb_words(c),
        )
    }
}

/// Copies the `len` words starting at word `off` of the payload at byte
/// `base` out of `bytes`.
fn read_section(bytes: &[u8], base: usize, off: usize, len: usize) -> (r: Vec<u32>)
    requires
        base + 4 * (off + len) <= bytes@.len(),
    ensures
        r@ == section(bytes@, base as int, off as int, len as int),
        r@.len() == len,
{
    let n: usize = bytes.len();
    let mut out: Vec<u32> = Vec::new();
    let mut i: usize = 0;
    while i < len
        invariant
            n == bytes@.len(),
            base + 4 * (off + len) <= n,
            i <= len,
            out@.len() == i,
            forall|j: int| 0 <= j < i ==> out@[j] == le_word(bytes@, base + 4 * (off + j)),
        decreases len - i,
    {
        let w = read_le_word(bytes, base + 4 * (off + i));
        out.push(w);
        i = i + 1;
    }
    proof {
        assert(out@ =~= section(bytes@, base as int, off as int, len as int));
    }
    out
}

/// The number of words a whole payload for `cfg` holds, or `None` where
/// that number does not even fit the machine's word.
#[verifier::rlimit(50)]
pub fn compute_total_words(cfg: &Config) -> (r: Option<usize>)
    requires
        cfg.wf(),
    ensures
        match r {
            Some(n) => n == total_words(*cfg),
            None => total_words(*cfg) > usize::MAX,
        },
{
    proof {
        lemma_layout_bounds(*cfg);
    }
    let hs = cfg.head_size();
    let dd = match cfg.dim.checked_mul(cfg.dim) {
        Some(v) => v,
        None => { return None; },
    };
    let dh = match cfg.dim.checked_mul(cfg.hidden_dim) {
        Some(v) => v,
        None => { return None; },
    };
    let vd = match cfg.vocab_size.checked_mul(cfg.dim) {
        Some(v) => v,
        None => { return None; },
    };
    let ld = match cfg.n_layers.checked_mul(cfg.dim) {
        Some(v) => v,
        None => { return None; },
    };
    let ldd = match cfg.n_layers.checked_mul(dd) {
        Some(v) => v,
        None => { return None; },
    };
    let ldh = match cfg.n_layers.checked_mul(dh) {
        Some(v) => v,
        None => { return None; },
    };
    let rope = match cfg.seq_len.checked_mul(hs / 2) {
        Some(v) => v,
        None => { return None; },
    };
    let mut t: usize = vd;
    t = match t.checked_add(ld) {
        Some(v) => v,
        None => { return None; },
    };
    t = match t.checked_add(ldd) {
        Some(v) => v,
        None => { return None; },
    };
    t = match t.checked_add(ldd) {
        Some(v) => v,
        None => { return None; },
    };
    t = match t.checked_add(ldd) {
        Some(v) => v,
        None => { return None; },
    };
    t = match t.checked_add(ldd) {
        Some(v) => v,
        None => { return None; },
    };
    t = match t.checked_add(ld) {
        Some(v) => v,
        None => { return None; },
    };
    t = match t.checked_add(ldh) {
        Some(v) => v,
        None => { return None; },
    };
    t = match t.checked_add(ldh) {
        Some(v) => v,
        None => { return None; },
    };
    t = match t.checked_add(ldh) {
        Some(v) => v,
        None => { return None; },
    };
    t = match t.checked_add(cfg.dim) {
        Some(v) => v,
        None => { return None; },
    };
    t = match t.checked_add(rope) {
        Some(v) => v,
        None => { return None; },
    };
    t = match t.checked_add(rope) {
        Some(v) => v,
        None => { return None; },
    };
    if !cfg.shared_weights {
        t = match t.checked_add(vd) {
            Some(v) => v,
            None => { return None; },
        };
    }
    Some(t)
}

impl LlamaWeights {
    /// Decodes the full weight payload that starts at byte `base` of
    /// `bytes`, against the shape `cfg` declares.
    ///
    /// Succeeds exactly when the buffer holds the whole payload; the one
    /// error is a short buffer. On success every array of the store equals
    /// its section of the payload, word for word.
    pub fn from_bytes(cfg: &Config, bytes: &[u8], base: usize) -> (r: Result<
        LlamaWeights,
        LoadError,
    >)
        requires
            cfg.wf(),
        ensures
            r is Ok <==> base + 4 * total_words(*cfg) <= bytes@.len(),
            r is Ok ==> r->Ok_0.wf(*cfg),
            r is Ok ==> r->Ok_0.matches(*cfg, bytes@, base as int),
            r is Err ==> r == Result::<LlamaWeights, LoadError>::Err(LoadError::Truncated),
    {
        proof {
            lemma_layout_bounds(*cfg);
        }
        let n: usize = bytes.len();
        let total = match compute_total_words(cfg) {
            Some(t) => t,
            None => { return Err(LoadError::Truncated); },
        };
        let total_bytes = match total.checked_mul(4) {
            Some(tb) => tb,
            None => { return Err(LoadError::Truncated); },
        };
        if base > n || total_bytes > n - base {
            return Err(LoadError::Truncated);
        }
        let dd: usize = cfg.dim * cfg.dim;
        let dh: usize = cfg.dim * cfg.hidden_dim;
        let vd: usize = cfg.vocab_size * cfg.dim;
        let ld: usize = cfg.n_layers * cfg.dim;
        let ldd: usize = cfg.n_layers * dd;
        let ldh: usize = cfg.n_layers * dh;
        let hs = cfg.head_size();
        let rope_len: usize = cfg.seq_len * (hs / 2);

        let rms_attn_o: usize = vd;
        let wq_o: usize = rms_attn_o + ld;
        let wk_o: usize = wq_o + ldd;
        let wv_o: usize = wk_o + ldd;
        let wo_o: usize = wv_o + ldd;
        let rms_ffn_o: usize = wo_o + ldd;
        let w1_o: usize = rms_ffn_o + ld;
        let w2_o: usize = w1_o + ldh;
        let w3_o: usize = w2_o + ldh;
        let rms_final_o: usize = w3_o + ldh;
        let rope_real_o: usize = rms_final_o + cfg.dim;
        let rope_imag_o: usize = rope_real_o + rope_len;
        let wcls_o: usize = rope_imag_o + rope_len;

        let embeddings = read_section(bytes, base, 0, vd);

        let mut layers: Vec<LayerWeights> = Vec::new();
        let mut l: usize = 0;
        while l < cfg.n_layers
            invariant
                cfg.wf(),
                n == bytes@.len(),
                base + 4 * total_words(*cfg) <= n,
                dd == mat_attn_words(*cfg),
                dh == mat_ffn_words(*cfg),
                ld == norm_run_words(*cfg),
                ldd == attn_run_words(*cfg),
                ldh == ffn_run_words(*cfg),
                rms_attn_o == rms_attn_off(*cfg),
                wq_o == wq_off(*cfg),
                wk_o == wk_off(*cfg),
                wv_o == wv_off(*cfg),
                wo_o == wo_off(*cfg),
                rms_ffn_o == rms_ffn_off(*cfg),
                w1_o == w1_off(*cfg),
                w2_o == w2_off(*cfg),
                w3_o == w3_off(*cfg),
                l <= cfg.n_layers,
                layers@.len() == l,
                forall|j: int| 0 <= j < l ==> #[trigger] layers@[j].wf(*cfg),
                forall|j: int|
                    0 <= j < l ==> #[trigger] layers@[j].matches(*cfg, bytes@, base as int, j),
            decreases cfg.n_layers - l,
        {
            proof {
                lemma_layout_bounds(*cfg);
                vstd::arithmetic::mul::lemma_mul_nonnegative(l as int, cfg.dim as int);
                vstd::arithmetic::mul::lemma_mul_nonnegative(l as int, dd as int);
                vstd::arithmetic::mul::lemma_mul_nonnegative(l as int, dh as int);
                vstd::arithmetic::mul::lemma_mul_inequality(
                    l + 1,
                    cfg.n_layers as int,
                    cfg.dim as int,
                );
                vstd::arithmetic::mul::lemma_mul_inequality(l + 1, cfg.n_layers as int, dd as int);
                vstd::arithmetic::mul::lemma_mul_inequality(l + 1, cfg.n_layers as int, dh as int);
                vstd::arithmetic::mul::lemma_mul_is_distributive_add_other_way(
                    cfg.dim as int,
                    l as int,
                    1,
                );
                vstd::arithmetic::mul::lemma_mul_is_distributive_add_other_way(
                    dd as int,
                    l as int,
                    1,
                );
                vstd::arithmetic::mul::lemma_mul_is_distributive_add_other_way(
                    dh as int,
                    l as int,
                    1,
                );
                vstd::arithmetic::mul::lemma_mul_basics(cfg.dim as int);
                vstd::arithmetic::mul::lemma_mul_basics(dd as int);
                vstd::arithmetic::mul::lemma_mul_basics(dh as int);
            }
            let lw = LayerWeights {
                rms_attn: read_section(bytes, base, rms_attn_o + l * cfg.dim, cfg.dim),
                wq: read_section(bytes, base, wq_o + l * dd, dd),
                wk: read_section(bytes, base, wk_o + l * dd, dd),
                wv: read_section(bytes, base, wv_o + l * dd, dd),
                wo: read_section(bytes, base, wo_o + l * dd, dd),
                rms_ffn: read_section(bytes, base, rms_ffn_o + l * cfg.dim, cfg.dim),
                w1: read_section(bytes, base, w1_o + l * dh, dh),
                w2: read_section(bytes, base, w2_o + l * dh, dh),
                w3: read_section(bytes, base, w3_o + l * dh, dh),
            };
            layers.push(lw);
            l = l + 1;
        }

        let rms_final = read_section(bytes, base, rms_final_o, cfg.dim);
        let rope_real = read_section(bytes, base, rope_real_o, rope_len);
        let rope_imag = read_section(bytes, base, rope_imag_o, rope_len);
        let wcls = if cfg.shared_weights {
            None
        } else {
            Some(read_section(bytes, base, wcls_o, vd))
        };

        Ok(LlamaWeights { embeddings, layers, rms_final, rope_real, rope_imag, wcls })
    }

    /// Copies the embedding row of one token: the engine's first step
    /// places it on the residual stream.
    pub fn embedding_row(&self, cfg: &Config, token: usize) -> (r: Vec<u32>)
        requires
            cfg.wf(),
            self.wf(*cfg),
            token < cfg.vocab_size,
        ensures
            r@ == self.embeddings@.subrange(
                token * cfg.dim as int,
                (token + 1) * cfg.dim as int,
            ),
            r@.len() == cfg.dim,
    {
        proof {
            vstd::arithmetic::mul::lemma_mul_is_distributive_add_other_way(
                cfg.dim as int,
                token as int,
                1,
            );
            vstd::arithmetic::mul::lemma_mul_basics(cfg.dim as int);
        }
        let elen: usize = self.embeddings.len();
        let start: usize = embedding_row_start(token, cfg.dim, cfg.vocab_size);
        let mut out: Vec<u32> = Vec::new();
        let mut i: usize = 0;
        while i < cfg.dim
            invariant
                elen == self.embeddings@.len(),
                elen >= start + cfg.dim,
                start == token * cfg.dim as int,
                i <= cfg.dim,
                out@.len() == i,
                forall|j: int| 0 <= j < i ==> out@[j] == self.embeddings@[start + j],
            decreases cfg.dim - i,
        {
            let w = self.embeddings[start + i];
            out.push(w);
            i = i + 1;
        }
        proof {
            assert(out@ =~= self.embeddings@.subrange(
                token * cfg.dim as int,
                (token + 1) * cfg.dim as int,
            ));
        }
        out
    }
}

/// Start of the embedding row of token `token` in a `vocab_size x dim`
/// row-major table; the row ends inside the table.
pub fn embedding_row_start(token: usize, dim: usize, vocab_size: usize) -> (r: usize)
    requires
        token < vocab_size,
        vocab_size * dim <= usize::MAX,
    ensures
        r == token * dim,
        r + dim <= vocab_size * dim,
{
    proof {
        vstd::arithmetic::mul::lemma_mul_nonnegative(token as int, dim as int);
        vstd::arithmetic::mul::lemma_mul_inequality(token + 1, vocab_size as int, dim as int);
        vstd::arithmetic::mul::lemma_mul_is_distributive_add_other_way(
            dim as int,
            token as int,
            1,
        );
        vstd::arithmetic::mul::lemma_mul_basics(dim as int);
    }
    token * dim
}

/// Decodes one whole checkpoint buffer: the header, then the payload
/// that follows it.
///
/// Succeeds exactly when the header is acceptable and the buffer holds
/// the full payload the header demands; the configuration and every
/// weight array are then pinned to the buffer's bytes.
pub fn load_checkpoint(bytes: &[u8]) -> (r: Result<(Config, LlamaWeights), CheckpointError>)
    ensures
        r is Ok <==> header_ok(bytes@) && HEADER_BYTES + 4 * total_words(spec_config_of(bytes@))
            <= bytes@.len(),
        r is Ok ==> ({
            let (c, w) = r->Ok_0;
            &&& c == spec_config_of(bytes@)
            &&& c.wf()
            &&& c.matches_header(bytes@)
            &&& w.wf(c)
            &&& w.matches(c, bytes@, HEADER_BYTES as int)
        }),
        r is Err && r->Err_0 is Header <==> !header_ok(bytes@),
        r is Err && r->Err_0 is Header ==> r->Err_0->Header_0 == spec_header_error(bytes@),
        r is Err && r->Err_0 is Truncated <==> header_ok(bytes@) && HEADER_BYTES + 4
            * total_words(spec_config_of(bytes@)) > bytes@.len(),
{
    let cfg = match Config::from_bytes(bytes) {
        Ok(c) => c,
        Err(e) => { return Err(CheckpointError::Header(e)); },
    };
    match LlamaWeights::from_bytes(&cfg, bytes, HEADER_BYTES) {
        Ok(w) => Ok((cfg, w)),
        Err(LoadError::Truncated) => Err(CheckpointError::Truncated),
    }
}

} // verus!
