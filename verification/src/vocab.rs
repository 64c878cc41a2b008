//! The vocabulary table: `vocab_size` records, each a 32-bit little-endian
//! signed length followed by that many raw bytes, concatenated without
//! padding. The table keeps one byte blob and a cumulative offset table,
//! so token `i` is `bytes[offsets[i]..offsets[i+1]]`.

use vstd::prelude::*;

use crate::bytes::{le_i32, read_le_i32_parts};

verus! {

/// Why a vocabulary buffer was rejected: some record is cut short or
/// declares a negative length.
#[derive(Debug, Clone, Copy, PartialEq, Eq, Structural)]
pub enum VocabError {
    Malformed,
}

/// The token texts that `n` records denote, parsed from byte `pos` of
/// `data` on; `None` where a record is cut short or declares a negative
/// length.
pub open spec fn parse_from(data: Seq<u8>, pos: int, n: nat) -> Option<Seq<Seq<u8>>>
    decreases n,
{
    if n == 0 {
        Some(Seq::empty())
    } else if pos + 4 <= data.len() && le_i32(data, pos) >= 0 && pos + 4 + le_i32(data, pos)
        <= data.len() {
        match parse_from(data, pos + 4 + le_i32(data, pos), (n - 1) as nat) {
            Some(rest) => Some(
                seq![data.subrange(pos + 4, pos + 4 + le_i32(data, pos))] + rest,
            ),
            None => None,
        }
    } else {
        None
    }
}

/// The token texts a blob and its cumulative offset table denote.
pub open spec fn tokens_of(bytes: Seq<u8>, offs: Seq<usize>) -> Seq<Seq<u8>> {
    Seq::new(
        (offs.len() - 1) as nat,
        |j: int| bytes.subrange(offs[j] as int, offs[j + 1] as int),
    )
}

/// Token id to text, as one byte blob plus a cumulative offset table.
pub struct Vocab {
    pub bytes: Vec<u8>,
    pub offsets: Vec<usize>,
}

impl Vocab {
    /// The offset table starts at zero, never decreases, and ends exactly
    /// at the blob's end.
    pub open spec fn wf(self) -> bool {
        &&& self.offsets@.len() >= 1
        &&& self.offsets@[0] == 0
        &&& forall|a: int, b: int|
            0 <= a <= b < self.offsets@.len() ==> #[trigger] self.offsets@[a] <= #[trigger] self.offsets@[b]
        &&& self.offsets@[self.offsets@.len() - 1] == self.bytes@.len()
    }

    /// How many tokens the table holds.
    pub open spec fn spec_token_count(self) -> int {
        self.offsets@.len() - 1
    }

    /// The text of token `i`.
    pub open spec fn spec_token(self, i: int) -> Seq<u8> {
        self.bytes@.subrange(self.offsets@[i] as int, self.offsets@[i + 1] as int)
    }

    /// All token texts, in id order.
    pub open spec fn token_seq(self) -> Seq<Seq<u8>> {
        tokens_of(self.bytes@, self.offsets@)
    }

    /// How many tokens the table holds.
    pub fn token_count(&self) -> (r: usize)
        requires
            self.wf(),
        ensures
            r == self.spec_token_count(),
    {
        self.offsets.len() - 1
    }

    /// Parses `n` length-prefixed records out of `data`.
    ///
    /// Succeeds exactly when all `n` records are whole and none declares a
    /// negative length; the table then denotes precisely the parsed texts.
    pub fn from_bytes(n: usize, data: &[u8]) -> (r: Result<Vocab, VocabError>)
        ensures
            r is Ok <==> parse_from(data@, 0, n as nat) is Some,
            r is Err <==> parse_from(data@, 0, n as nat) is None,
            r is Ok ==> r->Ok_0.wf(),
            r is Ok ==> r->Ok_0.spec_token_count() == n,
            r is Ok ==> r->Ok_0.token_seq() == parse_from(data@, 0, n as nat)->Some_0,
    {
        let dlen: usize = data.len();
        let mut blob: Vec<u8> = Vec::new();
        let mut offsets: Vec<usize> = Vec::new();
        offsets.push(0);
        let mut pos: usize = 0;
        let mut i: usize = 0;
        proof {
            if parse_from(data@, 0, n as nat) is Some {
                assert(tokens_of(blob@, offsets@) + parse_from(data@, 0, n as nat)->Some_0
                    =~= parse_from(data@, 0, n as nat)->Some_0);
            }
        }
        while i < n
            invariant
                dlen == data@.len(),
                i <= n,
                pos <= dlen,
                offsets@.len() == i + 1,
                offsets@[0] == 0,
                offsets@[i as int] == blob@.len(),
                pos == blob@.len() + 4 * i,
                forall|a: int, b: int|
                    0 <= a <= b < offsets@.len() ==> #[trigger] offsets@[a] <= #[trigger] offsets@[b],
                parse_from(data@, 0, n as nat) is Some <==> parse_from(
                    data@,
                    pos as int,
                    (n - i) as nat,
                ) is Some,
                parse_from(data@, 0, n as nat) is Some ==> parse_from(data@, 0, n as nat)->Some_0
                    == tokens_of(blob@, offsets@) + parse_from(
                    data@,
                    pos as int,
                    (n - i) as nat,
                )->Some_0,
            decreases n - i,
        {
            if dlen - pos < 4 {
                return Err(VocabError::Malformed);
            }
            let (lmag, lneg) = read_le_i32_parts(data, pos);
            if lneg {
                return Err(VocabError::Malformed);
            }
            let l = lmag as usize;
            if dlen - (pos + 4) < l {
                return Err(VocabError::Malformed);
            }
            let ghost prev_blob = blob@;
            let ghost prev_offsets = offsets@;
            let ghost prev_pos = pos as int;
            let ghost prev_i = i as nat;
            let start = pos + 4;
            let mut k: usize = 0;
            while k < l
                invariant
                    dlen == data@.len(),
                    start + l <= dlen,
                    k <= l,
                    blob@ == prev_blob + data@.subrange(start as int, start + k),
                decreases l - k,
            {
                let b = data[start + k];
                blob.push(b);
                proof {
                    assert(blob@ =~= prev_blob + data@.subrange(start as int, start + k + 1));
                }
                k = k + 1;
            }
            let new_off = blob.len();
            offsets.push(new_off);
            pos = start + l;
            i = i + 1;
            proof {
                let tok = data@.subrange(prev_pos + 4, prev_pos + 4 + l);
                assert(blob@ == prev_blob + tok);
                assert(le_i32(data@, prev_pos) == l);
                let suffix0 = parse_from(data@, prev_pos, (n - prev_i) as nat);
                let suffix1 = parse_from(data@, pos as int, (n - i) as nat);
                assert(suffix0 == match suffix1 {
                    Some(rest) => Some(seq![tok] + rest),
                    None => None::<Seq<Seq<u8>>>,
                });
                assert(tokens_of(blob@, offsets@) =~~= tokens_of(prev_blob, prev_offsets)
                    + seq![tok]) by {
                    assert forall|j: int| 0 <= j < i implies tokens_of(blob@, offsets@)[j]
                        == (tokens_of(prev_blob, prev_offsets) + seq![tok])[j] by {
                        if j < prev_i {
                            assert(tokens_of(blob@, offsets@)[j] =~= tokens_of(
                                prev_blob,
                                prev_offsets,
                            )[j]);
                        } else {
                            assert(tokens_of(blob@, offsets@)[j] =~= tok);
                        }
                    }
                }
                if suffix1 is Some {
                    assert((tokens_of(prev_blob, prev_offsets) + seq![tok]) + suffix1->Some_0
                        =~= tokens_of(prev_blob, prev_offsets) + (seq![tok] + suffix1->Some_0));
                }
            }
        }
        proof {
            if parse_from(data@, 0, n as nat) is Some {
                assert(tokens_of(blob@, offsets@) + parse_from(data@, pos as int, 0)->Some_0
                    =~= tokens_of(blob@, offsets@));
            }
        }
        Ok(Vocab { bytes: blob, offsets })
    }

    /// Copies the text of token `idx` out of the blob.
    pub fn get_token(&self, idx: usize) -> (r: Vec<u8>)
        requires
            self.wf(),
            idx < self.spec_token_count(),
        ensures
            r@ == self.spec_token(idx as int),
    {
        let olen: usize = self.offsets.len();
        let st = self.offsets[idx];
        let en = self.offsets[idx + 1];
        let blen: usize = self.bytes.len();
        let mut out: Vec<u8> = Vec::new();
        let mut k: usize = st;
        while k < en
            invariant
                st <= k <= en,
                en <= blen,
                blen == self.bytes@.len(),
                out@ == self.bytes@.subrange(st as int, k as int),
            decreases en - k,
        {
            let b = self.bytes[k];
            out.push(b);
            proof {
                assert(out@ =~= self.bytes@.subrange(st as int, k + 1));
            }
            k = k + 1;
        }
        out
    }
}

} // verus!
