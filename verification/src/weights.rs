//! The fixed-order weight dump: a header followed by thirteen row-major
//! tensors of 32-bit floats.

use vstd::prelude::*;
use vstd::slice::slice_subrange;
use candle_core::Tensor;
use crate::config::Config;
use crate::error::EngineError;
use crate::shape::checked_numel;
use crate::tensor::numel;
use crate::tensor::row;
use crate::tensor::shape_fits;
use crate::tensor::share;
use crate::tensor::tensor_dims;
use crate::tensor::tensor_from_le_bytes;
use crate::tensor::tensor_is_f32;
use crate::tensor::tensor_le_bytes;
use crate::weight_map::LayerPart;
use crate::weight_map::TensorName;
use crate::weight_map::WeightMap;

verus! {

/// The number of tensors that follow the header.
pub const LEGACY_TENSORS: usize = 13;

/// The shape of the `k`-th tensor of the dump: the embedding table, the
/// attention norms, the query, key, value and output projections, the
/// feed-forward norms, the three feed-forward projections (gating, up,
/// down), the final norm and the two rotary tables.
pub open spec fn legacy_shape(c: Config, k: int) -> Seq<usize>
    recommends
        c.n_heads > 0,
        0 <= k < LEGACY_TENSORS,
{
    if k == 0 {
        seq![c.vocab_size, c.dim]
    } else if k == 1 || k == 6 {
        seq![c.n_layers, c.dim]
    } else if 2 <= k <= 5 {
        seq![c.n_layers, c.dim, c.dim]
    } else if k == 7 || k == 8 {
        seq![c.n_layers, c.hidden_dim, c.dim]
    } else if k == 9 {
        seq![c.n_layers, c.dim, c.hidden_dim]
    } else if k == 10 {
        seq![c.dim]
    } else {
        seq![c.seq_len, (c.dim / c.n_heads / 2) as usize]
    }
}

/// The byte offset, counted from the end of the header, at which the `k`-th
/// tensor starts; for `k` the number of tensors, the length of the dump.
pub open spec fn legacy_offset(c: Config, k: int) -> nat
    decreases k,
{
    if k <= 0 {
        0
    } else {
        legacy_offset(c, k - 1) + 4 * numel(legacy_shape(c, k - 1))
    }
}

/// The number of bytes that the tensors of the dump take.
pub open spec fn legacy_bytes(c: Config) -> nat {
    legacy_offset(c, LEGACY_TENSORS as int)
}

/// The offsets never decrease.
pub proof fn lemma_legacy_offset_mono(c: Config, i: int, j: int)
    requires
        0 <= i <= j,
    ensures
        legacy_offset(c, i) <= legacy_offset(c, j),
    decreases j - i,
{
    if i < j {
        lemma_legacy_offset_mono(c, i, j - 1);
    }
}

/// The position of a block's tensor among the tensors of the dump.
pub open spec fn part_index(part: LayerPart) -> int {
    match part {
        LayerPart::InputNorm => 1,
        LayerPart::Query => 2,
        LayerPart::Key => 3,
        LayerPart::Value => 4,
        LayerPart::Output => 5,
        LayerPart::PostAttentionNorm => 6,
        LayerPart::Gate => 7,
        LayerPart::Up => 8,
        LayerPart::Down => 9,
    }
}

/// Whether `t` is the `layer`-th slice of the stacked tensor `stack`: its
/// shape is that of the stack without the leading dimension, its elements
/// are of the same type, and it holds the `layer`-th of the equal runs of the
/// stack's bytes.
pub open spec fn is_layer_slice(t: Tensor, stack: Tensor, layer: int) -> bool {
    let width = tensor_le_bytes(stack).len() / (tensor_dims(stack)[0] as nat);
    &&& tensor_dims(t) == tensor_dims(stack).skip(1)
    &&& tensor_is_f32(t) == tensor_is_f32(stack)
    &&& tensor_le_bytes(t) == tensor_le_bytes(stack).subrange(layer * width, (layer + 1) * width)
}

fn legacy_shape_of(c: &Config, k: usize) -> (r: Vec<usize>)
    requires
        c.n_heads > 0,
        k < LEGACY_TENSORS,
    ensures
        r@ == legacy_shape(*c, k as int),
{
    let r = if k == 0 {
        vec![c.vocab_size, c.dim]
    } else if k == 1 || k == 6 {
        vec![c.n_layers, c.dim]
    } else if k <= 5 {
        vec![c.n_layers, c.dim, c.dim]
    } else if k == 7 || k == 8 {
        vec![c.n_layers, c.hidden_dim, c.dim]
    } else if k == 9 {
        vec![c.n_layers, c.dim, c.hidden_dim]
    } else if k == 10 {
        vec![c.dim]
    } else {
        vec![c.seq_len, c.dim / c.n_heads / 2]
    };
    assert(r@ =~= legacy_shape(*c, k as int));
    r
}

/// The offsets of the thirteen tensors and, last, the length of the dump; or
/// `None` when that length is not representable.
fn legacy_offsets(c: &Config) -> (r: Option<Vec<usize>>)
    requires
        c.n_heads > 0,
    ensures
        match r {
            Some(v) => v@.len() == LEGACY_TENSORS + 1 && forall|k: int|
                0 <= k <= LEGACY_TENSORS ==> #[trigger] v@[k] == legacy_offset(*c, k),
            None => legacy_bytes(*c) > usize::MAX,
        },
{
    let mut offsets: Vec<usize> = Vec::new();
    offsets.push(0);
    let mut k: usize = 0;
    let mut off: usize = 0;
    while k < LEGACY_TENSORS
        invariant
            0 <= k <= LEGACY_TENSORS,
            c.n_heads > 0,
            offsets@.len() == k + 1,
            off == legacy_offset(*c, k as int),
            forall|j: int| 0 <= j <= k ==> #[trigger] offsets@[j] == legacy_offset(*c, j),
        decreases LEGACY_TENSORS - k,
    {
        proof {
            lemma_legacy_offset_mono(*c, k + 1, LEGACY_TENSORS as int);
        }
        let shape = legacy_shape_of(c, k);
        let count = match checked_numel(&shape) {
            Some(n) => n,
            None => {
                return None;
            },
        };
        let size = match count.checked_mul(4) {
            Some(n) => n,
            None => {
                return None;
            },
        };
        off = match off.checked_add(size) {
            Some(n) => n,
            None => {
                return None;
            },
        };
        offsets.push(off);
        k += 1;
    }
    Some(offsets)
}

/// The tensors of a weight dump, stacked over the layers as the dump stores
/// them.
pub struct TransformerWeights {
    token_embedding_table: Tensor,
    rms_att_weight: Tensor,
    rms_ffn_weight: Tensor,
    wq: Tensor,
    wk: Tensor,
    wv: Tensor,
    wo: Tensor,
    w_gate: Tensor,
    w_up: Tensor,
    w_down: Tensor,
    rms_final_weight: Tensor,
    freq_cis_real: Tensor,
    freq_cis_imag: Tensor,
}

impl TransformerWeights {
    /// The `k`-th tensor, in the order of the dump.
    pub closed spec fn tensor(&self, k: int) -> Tensor {
        if k == 0 {
            self.token_embedding_table
        } else if k == 1 {
            self.rms_att_weight
        } else if k == 2 {
            self.wq
        } else if k == 3 {
            self.wk
        } else if k == 4 {
            self.wv
        } else if k == 5 {
            self.wo
        } else if k == 6 {
            self.rms_ffn_weight
        } else if k == 7 {
            self.w_gate
        } else if k == 8 {
            self.w_up
        } else if k == 9 {
            self.w_down
        } else if k == 10 {
            self.rms_final_weight
        } else if k == 11 {
            self.freq_cis_real
        } else {
            self.freq_cis_imag
        }
    }

    /// Every tensor has the shape that the configuration gives it.
    pub open spec fn shaped(&self, c: Config) -> bool {
        forall|k: int|
            0 <= k < LEGACY_TENSORS ==> tensor_dims(#[trigger] self.tensor(k)) == legacy_shape(c, k)
                && shape_fits(legacy_shape(c, k))
    }

    /// Every tensor holds 32-bit floats.
    pub open spec fn all_f32(&self) -> bool {
        forall|k: int| 0 <= k < LEGACY_TENSORS ==> tensor_is_f32(#[trigger] self.tensor(k))
    }

    /// Every tensor has its shape, holds 32-bit floats and holds its range
    /// of `bytes`, the content of a dump after the header.
    pub open spec fn matches(&self, bytes: Seq<u8>, c: Config) -> bool {
        &&& self.shaped(c)
        &&& self.all_f32()
        &&& forall|k: int|
            0 <= k < LEGACY_TENSORS ==> tensor_le_bytes(#[trigger] self.tensor(k))
                == bytes.subrange(legacy_offset(c, k) as int, legacy_offset(c, k + 1) as int)
    }

    /// Whether `m` names the tensors: the embedding table under its own name
    /// and as the vocabulary projection, the final norm, the rotary tables,
    /// and under the name of every block's tensor the block's slice of the
    /// stacked tensor; no block beyond the last has a name.
    pub open spec fn names(&self, m: WeightMap, c: Config) -> bool {
        &&& m.spec_get(TensorName::EmbedTokens) == Some(self.tensor(0))
        &&& m.spec_get(TensorName::LmHead) == Some(self.tensor(0))
        &&& m.spec_get(TensorName::FinalNorm) == Some(self.tensor(10))
        &&& m.spec_get(TensorName::RotaryReal) == Some(self.tensor(11))
        &&& m.spec_get(TensorName::RotaryImag) == Some(self.tensor(12))
        &&& forall|layer: usize, part: LayerPart|
            layer < c.n_layers ==> (#[trigger] m.spec_get(TensorName::Layer(layer, part)) matches Some(
                t,
            ) && is_layer_slice(t, self.tensor(part_index(part)), layer as int))
        &&& forall|layer: usize, part: LayerPart|
            layer >= c.n_layers ==> (#[trigger] m.spec_get(TensorName::Layer(layer, part))) is None
    }

    /// A handle on the `k`-th tensor, in the order of the dump.
    pub fn get_tensor(&self, k: usize) -> (t: Tensor)
        requires
            k < LEGACY_TENSORS,
        ensures
            t == self.tensor(k as int),
    {
        if k == 0 {
            share(&self.token_embedding_table)
        } else if k == 1 {
            share(&self.rms_att_weight)
        } else if k == 2 {
            share(&self.wq)
        } else if k == 3 {
            share(&self.wk)
        } else if k == 4 {
            share(&self.wv)
        } else if k == 5 {
            share(&self.wo)
        } else if k == 6 {
            share(&self.rms_ffn_weight)
        } else if k == 7 {
            share(&self.w_gate)
        } else if k == 8 {
            share(&self.w_up)
        } else if k == 9 {
            share(&self.w_down)
        } else if k == 10 {
            share(&self.rms_final_weight)
        } else if k == 11 {
            share(&self.freq_cis_real)
        } else {
            share(&self.freq_cis_imag)
        }
    }

    /// Reads the thirteen tensors from `bytes`, the content of a dump after
    /// its header.  The input is truncated exactly when it is shorter than
    /// the shapes require; a configuration that breaks its invariant matches
    /// no dump.  Otherwise every tensor holds its range of the input.
    pub fn from_reader(bytes: &[u8], c: &Config) -> (r: Result<TransformerWeights, EngineError>)
        ensures
            !c.wf() ==> (r matches Err(e) && e == EngineError::ArchitectureMismatch),
            c.wf() && bytes@.len() < legacy_bytes(*c) ==> (r matches Err(e) && e
                == EngineError::IoTruncated),
            c.wf() && bytes@.len() >= legacy_bytes(*c) ==> (r matches Ok(w) && w.matches(
                bytes@,
                *c,
            )),
    {
        if !c.validate() {
            return Err(EngineError::ArchitectureMismatch);
        }
        let len = bytes.len();
        let offsets = match legacy_offsets(c) {
            Some(v) => v,
            None => {
                return Err(EngineError::IoTruncated);
            },
        };
        if len < offsets[LEGACY_TENSORS] {
            return Err(EngineError::IoTruncated);
        }
        let mut ts: Vec<Tensor> = Vec::new();
        let mut k: usize = 0;
        while k < LEGACY_TENSORS
            invariant
                0 <= k <= LEGACY_TENSORS,
                c.wf(),
                offsets@.len() == LEGACY_TENSORS + 1,
                forall|j: int|
                    0 <= j <= LEGACY_TENSORS ==> #[trigger] offsets@[j] == legacy_offset(*c, j),
                bytes@.len() >= legacy_bytes(*c),
                ts@.len() == k,
                forall|j: int|
                    0 <= j < k ==> #[trigger] tensor_dims(ts@[j]) == legacy_shape(*c, j)
                        && shape_fits(legacy_shape(*c, j)) && tensor_is_f32(ts@[j])
                        && tensor_le_bytes(ts@[j])
                        == bytes@.subrange(
                        legacy_offset(*c, j) as int,
                        legacy_offset(*c, j + 1) as int,
                    ),
            decreases LEGACY_TENSORS - k,
        {
            proof {
                lemma_legacy_offset_mono(*c, k + 1, LEGACY_TENSORS as int);
                assert(offsets@[k as int] == legacy_offset(*c, k as int));
                assert(offsets@[k + 1] == legacy_offset(*c, k + 1));
            }
            let shape = legacy_shape_of(c, k);
            let count = checked_numel(&shape).unwrap();
            let window = slice_subrange(bytes, offsets[k], offsets[k + 1]);
            let t = tensor_from_le_bytes(window, count, shape.as_slice()).unwrap();
            ts.push(t);
            k += 1;
        }
        let w = TransformerWeights {
            token_embedding_table: share(&ts[0]),
            rms_att_weight: share(&ts[1]),
            wq: share(&ts[2]),
            wk: share(&ts[3]),
            wv: share(&ts[4]),
            wo: share(&ts[5]),
            rms_ffn_weight: share(&ts[6]),
            w_gate: share(&ts[7]),
            w_up: share(&ts[8]),
            w_down: share(&ts[9]),
            rms_final_weight: share(&ts[10]),
            freq_cis_real: share(&ts[11]),
            freq_cis_imag: share(&ts[12]),
        };
        proof {
            assert forall|j: int| 0 <= j < LEGACY_TENSORS implies #[trigger] w.tensor(j)
                == ts@[j] && tensor_dims(ts@[j]) == legacy_shape(*c, j) by {}
        }
        Ok(w)
    }

    /// Names the tensors: the embedding table doubles as the vocabulary
    /// projection, and every stacked tensor is cut into its layers.
    pub fn var_builder(&self, cfg: &Config) -> (r: Result<WeightMap, EngineError>)
        requires
            self.shaped(*cfg),
        ensures
            r matches Ok(m) && self.names(m, *cfg),
    {
        let mut m = WeightMap::new();
        m.insert(TensorName::RotaryReal, share(&self.freq_cis_real));
        m.insert(TensorName::RotaryImag, share(&self.freq_cis_imag));
        m.insert(TensorName::EmbedTokens, share(&self.token_embedding_table));
        m.insert(TensorName::LmHead, share(&self.token_embedding_table));
        m.insert(TensorName::FinalNorm, share(&self.rms_final_weight));
        let mut layer: usize = 0;
        while layer < cfg.n_layers
            invariant
                0 <= layer <= cfg.n_layers,
                self.shaped(*cfg),
                m.spec_get(TensorName::EmbedTokens) == Some(self.tensor(0)),
                m.spec_get(TensorName::LmHead) == Some(self.tensor(0)),
                m.spec_get(TensorName::FinalNorm) == Some(self.tensor(10)),
                m.spec_get(TensorName::RotaryReal) == Some(self.tensor(11)),
                m.spec_get(TensorName::RotaryImag) == Some(self.tensor(12)),
                forall|l: usize, part: LayerPart|
                    l < layer ==> (#[trigger] m.spec_get(TensorName::Layer(l, part)) matches Some(
                        t,
                    ) && is_layer_slice(t, self.tensor(part_index(part)), l as int)),
                forall|l: usize, part: LayerPart|
                    l >= layer ==> (#[trigger] m.spec_get(TensorName::Layer(l, part))) is None,
            decreases cfg.n_layers - layer,
        {
            let mut p: usize = 0;
            let ghost before = m;
            while p < 9
                invariant
                    0 <= p <= 9,
                    layer < cfg.n_layers,
                    self.shaped(*cfg),
                    forall|name: TensorName|
                        !(name matches TensorName::Layer(l, _) && l == layer)
                            ==> #[trigger] m.spec_get(name) == before.spec_get(name),
                    forall|part: LayerPart|
                        part_index(part) <= p ==> (#[trigger] m.spec_get(
                            TensorName::Layer(layer, part),
                        ) matches Some(t) && is_layer_slice(
                            t,
                            self.tensor(part_index(part)),
                            layer as int,
                        )),
                decreases 9 - p,
            {
                p += 1;
                let part = part_of(p);
                let stack = self.get_tensor(p);
                assert(tensor_dims(self.tensor(p as int)) == legacy_shape(*cfg, p as int));
                let t = row(&stack, layer).unwrap();
                m.insert(TensorName::Layer(layer, part), t);
            }
            layer += 1;
        }
        Ok(m)
    }
}

/// The block tensor at position `k` of the dump.
fn part_of(k: usize) -> (part: LayerPart)
    requires
        1 <= k <= 9,
    ensures
        part_index(part) == k,
{
    if k == 1 {
        LayerPart::InputNorm
    } else if k == 2 {
        LayerPart::Query
    } else if k == 3 {
        LayerPart::Key
    } else if k == 4 {
        LayerPart::Value
    } else if k == 5 {
        LayerPart::Output
    } else if k == 6 {
        LayerPart::PostAttentionNorm
    } else if k == 7 {
        LayerPart::Gate
    } else if k == 8 {
        LayerPart::Up
    } else {
        LayerPart::Down
    }
}

} // verus!
