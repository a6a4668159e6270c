//! Architecture hyperparameters and the fixed header that carries them.

use vstd::prelude::*;
use crate::error::EngineError;

verus! {

/// The number of bytes of the header: seven little-endian 32-bit integers.
pub const HEADER_BYTES: usize = 28;

/// The bit pattern of the 64-bit float `1e-5`, the stabilising constant of the
/// normalisation layers.
pub const NORM_EPS_BITS: u64 = 0x3ee4_f8b5_88e3_68f1;

/// The hyperparameters of a model.
#[derive(Clone, Copy, Debug, PartialEq, Eq, Structural)]
pub struct Config {
    /// Width of the residual stream.
    pub dim: usize,
    /// Width of the feed-forward layers.
    pub hidden_dim: usize,
    /// Number of transformer blocks.
    pub n_layers: usize,
    /// Number of query heads.
    pub n_heads: usize,
    /// Number of key/value heads; divides `n_heads`.
    pub n_kv_heads: usize,
    /// Size of the vocabulary.
    pub vocab_size: usize,
    /// Length of the context window.
    pub seq_len: usize,
    /// The stabilising constant of the normalisation layers, as the bit
    /// pattern of a 64-bit float.
    pub norm_eps_bits: u64,
}

/// The signed value of four little-endian bytes.
pub open spec fn le_i32(b: Seq<u8>) -> int
    recommends
        b.len() == 4,
{
    let u = b[0] as int + 256 * (b[1] as int) + 65536 * (b[2] as int) + 16777216 * (b[3] as int);
    if u < 0x8000_0000 {
        u
    } else {
        u - 0x1_0000_0000
    }
}

/// The `k`-th integer of a header.
pub open spec fn header_field(bytes: Seq<u8>, k: int) -> int
    recommends
        0 <= k < 7,
        bytes.len() >= HEADER_BYTES,
{
    le_i32(bytes.subrange(4 * k, 4 * k + 4))
}

/// The hyperparameters that a header declares.
pub open spec fn header_config(bytes: Seq<u8>) -> Config
    recommends
        bytes.len() >= HEADER_BYTES,
{
    Config {
        dim: header_field(bytes, 0) as usize,
        hidden_dim: header_field(bytes, 1) as usize,
        n_layers: header_field(bytes, 2) as usize,
        n_heads: header_field(bytes, 3) as usize,
        n_kv_heads: header_field(bytes, 4) as usize,
        vocab_size: header_field(bytes, 5) as usize,
        seq_len: header_field(bytes, 6) as usize,
        norm_eps_bits: NORM_EPS_BITS,
    }
}

/// Whether a header declares usable hyperparameters: no field is negative
/// and together they are well-formed.
pub open spec fn header_valid(bytes: Seq<u8>) -> bool
    recommends
        bytes.len() >= HEADER_BYTES,
{
    &&& forall|k: int| 0 <= k < 7 ==> #[trigger] header_field(bytes, k) >= 0
    &&& header_config(bytes).wf()
}

/// Reads one little-endian 32-bit signed integer at `offset`.
pub fn read_i32(bytes: &[u8], offset: usize) -> (r: Result<i32, EngineError>)
    ensures
        offset + 4 <= bytes@.len() ==> r == Ok::<i32, EngineError>(
            le_i32(bytes@.subrange(offset as int, offset + 4)) as i32,
        ),
        offset + 4 > bytes@.len() ==> r == Err::<i32, EngineError>(EngineError::IoTruncated),
{
    if bytes.len() < 4 || offset > bytes.len() - 4 {
        return Err(EngineError::IoTruncated);
    }
    let b0: u32 = bytes[offset] as u32;
    let b1: u32 = bytes[offset + 1] as u32;
    let b2: u32 = bytes[offset + 2] as u32;
    let b3: u32 = bytes[offset + 3] as u32;
    let u: u32 = b0 + 256 * b1 + 65536 * b2 + 16777216 * b3;
    let ghost window = bytes@.subrange(offset as int, offset + 4);
    assert(window[0] == bytes@[offset as int] && window[1] == bytes@[offset + 1] && window[2]
        == bytes@[offset + 2] && window[3] == bytes@[offset + 3]);
    if u < 0x8000_0000 {
        Ok(u as i32)
    } else {
        let low: i32 = (u - 0x8000_0000) as i32;
        Ok(low + i32::MIN)
    }
}

impl Config {
    /// The invariant of a configuration: the heads divide evenly, every
    /// head has an even, positive width, and the shapes the model computes
    /// with have representable element counts.
    pub open spec fn wf(&self) -> bool {
        &&& self.n_heads > 0
        &&& self.n_kv_heads > 0
        &&& self.n_heads % self.n_kv_heads == 0
        &&& self.dim > 0
        &&& self.dim % self.n_heads == 0
        &&& (self.dim / self.n_heads) % 2 == 0
        &&& self.hidden_dim > 0
        &&& self.vocab_size > 0
        &&& self.seq_len > 0
        &&& self.dim <= u32::MAX
        &&& self.seq_len <= u32::MAX
        &&& self.seq_len * self.dim <= usize::MAX
        &&& self.seq_len * self.hidden_dim <= usize::MAX
        &&& self.n_heads * (self.seq_len * self.seq_len) <= usize::MAX
        &&& self.vocab_size * self.dim <= usize::MAX
        &&& self.dim * self.dim <= usize::MAX
        &&& self.hidden_dim * self.dim <= usize::MAX
    }

    /// The width of one attention head.
    pub open spec fn spec_head_size(&self) -> nat
        recommends
            self.n_heads > 0,
    {
        (self.dim / self.n_heads) as nat
    }

    /// The number of query heads that share one key/value head.
    pub open spec fn spec_repeat_factor(&self) -> nat
        recommends
            self.n_kv_heads > 0,
    {
        (self.n_heads / self.n_kv_heads) as nat
    }

    /// The width of the key and value projections.
    pub open spec fn spec_kv_dim(&self) -> nat
        recommends
            self.n_heads > 0,
    {
        self.spec_head_size() * (self.n_kv_heads as nat)
    }

    /// The key/value head that serves query head `q`.
    pub open spec fn spec_kv_head_of(&self, q: nat) -> nat
        recommends
            self.wf(),
    {
        q / self.spec_repeat_factor()
    }

    /// The key/value head that serves query head `q`.
    pub fn kv_head_of(&self, q: usize) -> (h: usize)
        requires
            self.wf(),
        ensures
            h == self.spec_kv_head_of(q as nat),
    {
        proof {
            self.lemma_heads();
        }
        q / (self.n_heads / self.n_kv_heads)
    }

    /// Grouped-query attention: key/value head `h` serves exactly the query
    /// heads from `h * repeat_factor` up to, not including,
    /// `(h + 1) * repeat_factor`, and every query head is served by a
    /// key/value head that exists.
    pub proof fn lemma_kv_head_groups(&self, q: nat, h: nat)
        requires
            self.wf(),
            q < self.n_heads,
        ensures
            self.spec_kv_head_of(q) == h <==> h * self.spec_repeat_factor() <= q < (h + 1)
                * self.spec_repeat_factor(),
            self.spec_kv_head_of(q) < self.n_kv_heads,
    {
        self.lemma_heads();
        let rep = self.spec_repeat_factor();
        let kv = self.n_kv_heads as nat;
        let nh = self.n_heads as nat;
        let got = q / rep;
        assert(got * rep <= q < (got + 1) * rep) by (nonlinear_arith)
            requires
                got == q / rep,
                rep >= 1,
        ;
        assert(got < kv) by (nonlinear_arith)
            requires
                got * rep <= q,
                q < nh,
                rep * kv == nh,
                rep >= 1,
        ;
        if h * rep <= q < (h + 1) * rep {
            assert(h == got) by (nonlinear_arith)
                requires
                    h * rep <= q < (h + 1) * rep,
                    got * rep <= q < (got + 1) * rep,
                    rep >= 1,
            ;
        }
    }

    /// The configuration of the small story model.
    pub fn tiny() -> (c: Config)
        ensures
            c == (Config {
                dim: 288,
                hidden_dim: 768,
                n_layers: 6,
                n_heads: 6,
                n_kv_heads: 6,
                vocab_size: 32000,
                seq_len: 256,
                norm_eps_bits: NORM_EPS_BITS,
            }),
            c.wf(),
    {
        Config {
            dim: 288,
            hidden_dim: 768,
            n_layers: 6,
            n_heads: 6,
            n_kv_heads: 6,
            vocab_size: 32000,
            seq_len: 256,
            norm_eps_bits: NORM_EPS_BITS,
        }
    }

    /// The width of one attention head.
    pub fn head_size(&self) -> (r: usize)
        requires
            self.n_heads > 0,
        ensures
            r == self.spec_head_size(),
    {
        self.dim / self.n_heads
    }

    /// The number of query heads that share one key/value head.
    pub fn repeat_factor(&self) -> (r: usize)
        requires
            self.n_kv_heads > 0,
        ensures
            r == self.spec_repeat_factor(),
    {
        self.n_heads / self.n_kv_heads
    }

    /// The width of the key and value projections.
    pub fn kv_dim(&self) -> (r: usize)
        requires
            self.wf(),
        ensures
            r == self.spec_kv_dim(),
            r <= self.dim,
            r > 0,
    {
        proof {
            self.lemma_heads();
        }
        (self.dim / self.n_heads) * self.n_kv_heads
    }

    /// In a well-formed configuration the heads tile the model width, and
    /// the key/value heads tile a part of it.
    pub proof fn lemma_heads(&self)
        requires
            self.wf(),
        ensures
            self.spec_head_size() * self.n_heads == self.dim,
            self.spec_repeat_factor() * self.n_kv_heads == self.n_heads,
            self.spec_kv_dim() * self.spec_repeat_factor() == self.dim,
            0 < self.spec_kv_dim() <= self.dim,
            0 < self.spec_head_size() <= self.dim,
            self.spec_head_size() % 2 == 0,
            1 <= self.spec_repeat_factor() <= self.n_heads,
            self.n_kv_heads <= self.n_heads,
    {
        let hs = self.spec_head_size();
        let rep = self.spec_repeat_factor();
        let h = self.n_heads as nat;
        let kv = self.n_kv_heads as nat;
        let d = self.dim as nat;
        assert(hs * h == d) by (nonlinear_arith)
            requires
                hs == d / h,
                d % h == 0,
                h > 0,
        ;
        assert(rep * kv == h) by (nonlinear_arith)
            requires
                rep == h / kv,
                h % kv == 0,
                kv > 0,
        ;
        assert((hs * kv) * rep == d) by (nonlinear_arith)
            requires
                hs * h == d,
                rep * kv == h,
        ;
        assert(rep >= 1 && rep <= h && kv <= h) by (nonlinear_arith)
            requires
                rep * kv == h,
                kv > 0,
                h > 0,
        ;
        assert(hs > 0 && hs <= d) by (nonlinear_arith)
            requires
                hs * h == d,
                h > 0,
                d > 0,
        ;
        assert(hs * kv > 0 && hs * kv <= d) by (nonlinear_arith)
            requires
                hs * h == d,
                kv <= h,
                kv > 0,
                hs > 0,
        ;
    }

    /// Decides whether the configuration is well-formed.
    pub fn validate(&self) -> (ok: bool)
        ensures
            ok == self.wf(),
    {
        if self.n_heads == 0 || self.n_kv_heads == 0 || self.dim == 0 || self.hidden_dim == 0
            || self.vocab_size == 0 || self.seq_len == 0 {
            return false;
        }
        if self.n_heads % self.n_kv_heads != 0 || self.dim % self.n_heads != 0 || (self.dim
            / self.n_heads) % 2 != 0 {
            return false;
        }
        if self.dim > 0xffff_ffff || self.seq_len > 0xffff_ffff {
            return false;
        }
        let square = match self.seq_len.checked_mul(self.seq_len) {
            Some(v) => v,
            None => {
                assert(self.n_heads * (self.seq_len * self.seq_len) > usize::MAX)
                    by (nonlinear_arith)
                    requires
                        self.n_heads >= 1,
                        self.seq_len * self.seq_len > usize::MAX,
                ;
                return false;
            },
        };
        self.seq_len.checked_mul(self.dim).is_some() && self.seq_len.checked_mul(
            self.hidden_dim,
        ).is_some() && self.n_heads.checked_mul(square).is_some() && self.vocab_size.checked_mul(
            self.dim,
        ).is_some() && self.dim.checked_mul(self.dim).is_some() && self.hidden_dim.checked_mul(
            self.dim,
        ).is_some()
    }

    /// Reads the hyperparameters from the first [`HEADER_BYTES`] bytes of a
    /// weight file.  A short input is truncated; a header with a negative
    /// field, or one that breaks the invariant, does not describe a model.
    pub fn from_reader(bytes: &[u8]) -> (r: Result<Config, EngineError>)
        ensures
            bytes@.len() < HEADER_BYTES ==> r == Err::<Config, EngineError>(
                EngineError::IoTruncated,
            ),
            bytes@.len() >= HEADER_BYTES && header_valid(bytes@) ==> r == Ok::<
                Config,
                EngineError,
            >(header_config(bytes@)),
            bytes@.len() >= HEADER_BYTES && !header_valid(bytes@) ==> r == Err::<
                Config,
                EngineError,
            >(EngineError::ArchitectureMismatch),
    {
        if bytes.len() < HEADER_BYTES {
            return Err(EngineError::IoTruncated);
        }
        let mut fields: Vec<usize> = Vec::new();
        let mut negative = false;
        let mut k: usize = 0;
        while k < 7
            invariant
                0 <= k <= 7,
                bytes@.len() >= HEADER_BYTES,
                fields@.len() == k,
                negative == exists|j: int| 0 <= j < k && #[trigger] header_field(bytes@, j) < 0,
                forall|j: int|
                    0 <= j < k && header_field(bytes@, j) >= 0 ==> #[trigger] fields@[j]
                        == header_field(bytes@, j),
            decreases 7 - k,
        {
            let v = match read_i32(bytes, 4 * k) {
                Ok(v) => v,
                Err(_) => {
                    return Err(EngineError::IoTruncated);
                },
            };
            assert(v == header_field(bytes@, k as int));
            if v < 0 {
                negative = true;
                fields.push(0);
            } else {
                fields.push(v as usize);
            }
            k += 1;
        }
        if negative {
            return Err(EngineError::ArchitectureMismatch);
        }
        let config = Config {
            dim: fields[0],
            hidden_dim: fields[1],
            n_layers: fields[2],
            n_heads: fields[3],
            n_kv_heads: fields[4],
            vocab_size: fields[5],
            seq_len: fields[6],
            norm_eps_bits: NORM_EPS_BITS,
        };
        assert(config == header_config(bytes@));
        if config.validate() {
            Ok(config)
        } else {
            Err(EngineError::ArchitectureMismatch)
        }
    }
}

} // verus!
