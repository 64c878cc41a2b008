//! The checkpoint header: seven 32-bit signed little-endian fields, in the
//! order `dim, hidden_dim, n_layers, n_heads, n_kv_heads, vocab_size,
//! seq_len`. The sign of the serialized `vocab_size` field carries one more
//! bit: a negative magnitude means the embedding table doubles as the output
//! projection (`shared_weights`).

use vstd::prelude::*;

use crate::bytes::{le_i32, read_le_i32_parts};
use crate::HEADER_BYTES;

verus! {

/// Model shape read once from the checkpoint header, immutable afterwards.
#[derive(Debug, Clone, Copy, PartialEq, Eq, Structural)]
pub struct Config {
    pub dim: usize,
    pub hidden_dim: usize,
    pub n_layers: usize,
    pub n_heads: usize,
    pub n_kv_heads: usize,
    pub vocab_size: usize,
    pub seq_len: usize,
    pub shared_weights: bool,
}

/// Why a header was rejected.
#[derive(Debug, Clone, Copy, PartialEq, Eq, Structural)]
pub enum HeaderError {
    /// Fewer bytes than one header needs.
    Truncated,
    /// A dimension field is zero or negative (the vocabulary field: zero).
    NonPositive,
    /// The header declares grouped-query attention (`n_kv_heads != n_heads`),
    /// which this engine does not implement.
    UnsupportedKvHeads,
    /// `dim` is not a multiple of `n_heads`, so no head size exists.
    NotDivisible,
}

/// Signed value of header field `i` (0-based) of a serialized header.
pub open spec fn header_field(s: Seq<u8>, i: int) -> int
    recommends
        0 <= i < 7,
        s.len() >= HEADER_BYTES,
{
    le_i32(s, 4 * i)
}

/// The vocabulary size a header declares: the magnitude of field 5.
pub open spec fn spec_vocab_size(s: Seq<u8>) -> int {
    if header_field(s, 5) < 0 {
        -header_field(s, 5)
    } else {
        header_field(s, 5)
    }
}

/// Whether a header declares the embedding table shared with the output
/// projection: field 5 is negative.
pub open spec fn spec_shared_weights(s: Seq<u8>) -> bool {
    header_field(s, 5) < 0
}

/// All seven fields declare a non-empty dimension.
pub open spec fn header_fields_positive(s: Seq<u8>) -> bool {
    &&& header_field(s, 0) > 0
    &&& header_field(s, 1) > 0
    &&& header_field(s, 2) > 0
    &&& header_field(s, 3) > 0
    &&& header_field(s, 4) > 0
    &&& spec_vocab_size(s) > 0
    &&& header_field(s, 6) > 0
}

/// The first check, in `header_ok`'s order, that a rejected header fails.
pub open spec fn spec_header_error(s: Seq<u8>) -> HeaderError {
    if s.len() < HEADER_BYTES {
        HeaderError::Truncated
    } else if !header_fields_positive(s) {
        HeaderError::NonPositive
    } else if header_field(s, 4) != header_field(s, 3) {
        HeaderError::UnsupportedKvHeads
    } else {
        HeaderError::NotDivisible
    }
}

/// The configuration a valid header denotes.
pub open spec fn spec_config_of(s: Seq<u8>) -> Config {
    Config {
        dim: header_field(s, 0) as usize,
        hidden_dim: header_field(s, 1) as usize,
        n_layers: header_field(s, 2) as usize,
        n_heads: header_field(s, 3) as usize,
        n_kv_heads: header_field(s, 4) as usize,
        vocab_size: spec_vocab_size(s) as usize,
        seq_len: header_field(s, 6) as usize,
        shared_weights: spec_shared_weights(s),
    }
}

/// A serialized header this engine accepts.
pub open spec fn header_ok(s: Seq<u8>) -> bool {
    &&& s.len() >= HEADER_BYTES
    &&& header_fields_positive(s)
    &&& header_field(s, 4) == header_field(s, 3)
    &&& header_field(s, 0) % header_field(s, 3) == 0
}

impl Config {
    /// The shape invariant every loaded configuration satisfies.
    pub open spec fn wf(self) -> bool {
        &&& self.dim > 0
        &&& self.hidden_dim > 0
        &&& self.n_layers > 0
        &&& self.n_heads > 0
        &&& self.n_kv_heads == self.n_heads
        &&& self.vocab_size > 0
        &&& self.seq_len > 0
        &&& self.dim % self.n_heads == 0
    }

    /// Length of one attention head's slice of a `dim`-length vector.
    pub open spec fn spec_head_size(self) -> int {
        self.dim as int / self.n_heads as int
    }

    /// The configuration a serialized header denotes.
    pub open spec fn matches_header(self, s: Seq<u8>) -> bool {
        &&& self.dim == header_field(s, 0)
        &&& self.hidden_dim == header_field(s, 1)
        &&& self.n_layers == header_field(s, 2)
        &&& self.n_heads == header_field(s, 3)
        &&& self.n_kv_heads == header_field(s, 4)
        &&& self.vocab_size == spec_vocab_size(s)
        &&& self.seq_len == header_field(s, 6)
        &&& self.shared_weights == spec_shared_weights(s)
    }

    /// Decodes and validates a checkpoint header.
    ///
    /// Succeeds exactly on the headers `header_ok` admits; each error names
    /// the first check, in the order of `header_ok`'s clauses, that failed.
    pub fn from_bytes(bytes: &[u8]) -> (r: Result<Config, HeaderError>)
        ensures
            r is Ok <==> header_ok(bytes@),
            r is Ok ==> r->Ok_0.wf() && r->Ok_0.matches_header(bytes@),
            r is Ok ==> r->Ok_0 == spec_config_of(bytes@),
            r is Err ==> r->Err_0 == spec_header_error(bytes@),
            r == Result::<Config, HeaderError>::Err(HeaderError::Truncated) <==> bytes@.len()
                < HEADER_BYTES,
            r == Result::<Config, HeaderError>::Err(HeaderError::NonPositive) <==> (bytes@.len()
                >= HEADER_BYTES && !header_fields_positive(bytes@)),
            r == Result::<Config, HeaderError>::Err(HeaderError::UnsupportedKvHeads) <==> (
            bytes@.len() >= HEADER_BYTES && header_fields_positive(bytes@) && header_field(
                bytes@,
                4,
            ) != header_field(bytes@, 3)),
            r == Result::<Config, HeaderError>::Err(HeaderError::NotDivisible) <==> (bytes@.len()
                >= HEADER_BYTES && header_fields_positive(bytes@) && header_field(bytes@, 4)
                == header_field(bytes@, 3) && header_field(bytes@, 0) % header_field(bytes@, 3)
                != 0),
    {
        if bytes.len() < HEADER_BYTES {
            return Err(HeaderError::Truncated);
        }
        let (dim, dim_neg) = read_le_i32_parts(bytes, 0);
        let (hidden_dim, hidden_neg) = read_le_i32_parts(bytes, 4);
        let (n_layers, layers_neg) = read_le_i32_parts(bytes, 8);
        let (n_heads, heads_neg) = read_le_i32_parts(bytes, 12);
        let (n_kv_heads, kv_neg) = read_le_i32_parts(bytes, 16);
        let (vocab_mag, vocab_neg) = read_le_i32_parts(bytes, 20);
        let (seq_len, seq_neg) = read_le_i32_parts(bytes, 24);

        if dim_neg || dim == 0 || hidden_neg || hidden_dim == 0 || layers_neg || n_layers == 0
            || heads_neg || n_heads == 0 || kv_neg || n_kv_heads == 0 || vocab_mag == 0 || seq_neg
            || seq_len == 0 {
            return Err(HeaderError::NonPositive);
        }
        if n_kv_heads != n_heads {
            return Err(HeaderError::UnsupportedKvHeads);
        }
        if dim % n_heads != 0 {
            return Err(HeaderError::NotDivisible);
        }
        Ok(
            Config {
                dim: dim as usize,
                hidden_dim: hidden_dim as usize,
                n_layers: n_layers as usize,
                n_heads: n_heads as usize,
                n_kv_heads: n_kv_heads as usize,
                vocab_size: vocab_mag as usize,
                seq_len: seq_len as usize,
                shared_weights: vocab_neg,
            },
        )
    }

    /// Length of one attention head's slice of a `dim`-length vector.
    pub fn head_size(&self) -> (r: usize)
        requires
            self.wf(),
        ensures
            r == self.spec_head_size(),
            r >= 1,
    {
        proof {
            let d = self.dim as int;
            let h = self.n_heads as int;
            vstd::arithmetic::div_mod::lemma_fundamental_div_mod(d, h);
            assert(d / h >= 1) by (nonlinear_arith)
                requires
                    d == h * (d / h) + d % h,
                    d % h == 0,
                    d > 0,
                    h > 0,
            ;
        }
        self.dim / self.n_heads
    }
}

} // verus!
