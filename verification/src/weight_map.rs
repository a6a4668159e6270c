//! The weight map: logical tensor names and the tensors bound to them.
//!
//! Names are an enumeration, with the path that weight files use for each,
//! and the map is a list in which the latest binding of a name wins: a
//! lookup is then a function of the bindings that contracts can speak of,
//! down to the very tensor that a name is bound to.

use vstd::prelude::*;
use candle_core::Tensor;
use vstd::string::StringExecFns;
use crate::tensor::shape_of;
use crate::text::decimal;
use crate::text::push_decimal;
use crate::tensor::share;
use crate::tensor::tensor_dims;

verus! {

/// The tensors of one transformer block.
#[derive(Clone, Copy, Debug, PartialEq, Eq, Structural)]
pub enum LayerPart {
    /// Query projection.
    Query,
    /// Key projection.
    Key,
    /// Value projection.
    Value,
    /// Output projection of the attention.
    Output,
    /// Gate projection of the feed-forward layer.
    Gate,
    /// Up projection of the feed-forward layer.
    Up,
    /// Down projection of the feed-forward layer.
    Down,
    /// Scale of the normalisation before the attention.
    InputNorm,
    /// Scale of the normalisation before the feed-forward layer.
    PostAttentionNorm,
}

/// The logical name of a tensor of the model.
#[derive(Clone, Copy, Debug, PartialEq, Eq, Structural)]
pub enum TensorName {
    /// The token embedding table.
    EmbedTokens,
    /// The projection from the residual stream to the vocabulary.
    LmHead,
    /// Scale of the final normalisation.
    FinalNorm,
    /// Cosine table of the rotary position encoding.
    RotaryReal,
    /// Sine table of the rotary position encoding.
    RotaryImag,
    /// A tensor of the block with the given index.
    Layer(usize, LayerPart),
}

impl LayerPart {
    /// The path of the tensor inside its block.
    pub open spec fn suffix(self) -> Seq<char> {
        match self {
            LayerPart::Query => ".self_attn.q_proj.weight"@,
            LayerPart::Key => ".self_attn.k_proj.weight"@,
            LayerPart::Value => ".self_attn.v_proj.weight"@,
            LayerPart::Output => ".self_attn.o_proj.weight"@,
            LayerPart::Gate => ".mlp.gate_proj.weight"@,
            LayerPart::Up => ".mlp.up_proj.weight"@,
            LayerPart::Down => ".mlp.down_proj.weight"@,
            LayerPart::InputNorm => ".input_layernorm.weight"@,
            LayerPart::PostAttentionNorm => ".post_attention_layernorm.weight"@,
        }
    }
}

impl TensorName {
    /// The path under which weight files keep the tensor.
    pub open spec fn path_text(self) -> Seq<char> {
        match self {
            TensorName::EmbedTokens => "model.embed_tokens.weight"@,
            TensorName::LmHead => "lm_head.weight"@,
            TensorName::FinalNorm => "model.norm.weight"@,
            TensorName::RotaryReal => "rot.freq_cis_real"@,
            TensorName::RotaryImag => "rot.freq_cis_imag"@,
            TensorName::Layer(layer, part) => "model.layers."@ + decimal(layer as nat)
                + part.suffix(),
        }
    }

    /// The path under which weight files keep the tensor.
    pub fn path(self) -> (text: String)
        ensures
            text@ == self.path_text(),
    {
        match self {
            TensorName::EmbedTokens => "model.embed_tokens.weight".to_string(),
            TensorName::LmHead => "lm_head.weight".to_string(),
            TensorName::FinalNorm => "model.norm.weight".to_string(),
            TensorName::RotaryReal => "rot.freq_cis_real".to_string(),
            TensorName::RotaryImag => "rot.freq_cis_imag".to_string(),
            TensorName::Layer(layer, part) => {
                let mut text = "model.layers.".to_string();
                push_decimal(&mut text, layer);
                let suffix = match part {
                    LayerPart::Query => ".self_attn.q_proj.weight",
                    LayerPart::Key => ".self_attn.k_proj.weight",
                    LayerPart::Value => ".self_attn.v_proj.weight",
                    LayerPart::Output => ".self_attn.o_proj.weight",
                    LayerPart::Gate => ".mlp.gate_proj.weight",
                    LayerPart::Up => ".mlp.up_proj.weight",
                    LayerPart::Down => ".mlp.down_proj.weight",
                    LayerPart::InputNorm => ".input_layernorm.weight",
                    LayerPart::PostAttentionNorm => ".post_attention_layernorm.weight",
                };
                text.append(suffix);
                text
            },
        }
    }
}

/// Whether two shapes are equal.
pub fn same_dims(a: &Vec<usize>, b: &Vec<usize>) -> (r: bool)
    ensures
        r == (a@ == b@),
{
    if a.len() != b.len() {
        return false;
    }
    let mut i: usize = 0;
    while i < a.len()
        invariant
            0 <= i <= a@.len(),
            a@.len() == b@.len(),
            forall|j: int| 0 <= j < i ==> a@[j] == b@[j],
        decreases a@.len() - i,
    {
        if a[i] != b[i] {
            return false;
        }
        i += 1;
    }
    assert(a@ =~= b@);
    true
}

/// The tensor that the first `n` bindings give to `name`: the latest binding
/// wins.
pub open spec fn lookup_upto(entries: Seq<(TensorName, Tensor)>, name: TensorName, n: nat) -> Option<
    Tensor,
>
    recommends
        n <= entries.len(),
    decreases n,
{
    if n == 0 {
        None
    } else if entries[n - 1].0 == name {
        Some(entries[n - 1].1)
    } else {
        lookup_upto(entries, name, (n - 1) as nat)
    }
}

/// Bindings that agree on their first `n` entries give the same tensor to
/// every name there.
pub proof fn lemma_lookup_prefix(
    entries: Seq<(TensorName, Tensor)>,
    entries2: Seq<(TensorName, Tensor)>,
    name: TensorName,
    n: nat,
)
    requires
        n <= entries.len(),
        n <= entries2.len(),
        forall|i: int| 0 <= i < n ==> entries[i] == entries2[i],
    ensures
        lookup_upto(entries, name, n) == lookup_upto(entries2, name, n),
    decreases n,
{
    if n > 0 {
        lemma_lookup_prefix(entries, entries2, name, (n - 1) as nat);
    }
}

/// A map from logical tensor names to tensors.
pub struct WeightMap {
    entries: Vec<(TensorName, Tensor)>,
}

impl WeightMap {
    /// The tensor bound to `name`, if any.
    pub closed spec fn spec_get(&self, name: TensorName) -> Option<Tensor> {
        lookup_upto(self.entries@, name, self.entries@.len())
    }

    /// The empty map.
    pub fn new() -> (m: WeightMap)
        ensures
            forall|name: TensorName| (#[trigger] m.spec_get(name)) is None,
    {
        WeightMap { entries: Vec::new() }
    }

    /// Binds `name` to `tensor`, replacing an earlier binding of the name.
    pub fn insert(&mut self, name: TensorName, tensor: Tensor)
        ensures
            forall|other: TensorName| #[trigger]
                final(self).spec_get(other) == if other == name {
                    Some(tensor)
                } else {
                    old(self).spec_get(other)
                },
    {
        let ghost entries0 = self.entries@;
        self.entries.push((name, tensor));
        proof {
            assert forall|other: TensorName| #[trigger]
                lookup_upto(self.entries@, other, self.entries@.len()) == if other == name {
                    Some(tensor)
                } else {
                    lookup_upto(entries0, other, entries0.len())
                } by {
                lemma_lookup_prefix(self.entries@, entries0, other, entries0.len());
            }
        }
    }

    /// A handle on the tensor bound to `name`, if any.
    pub fn get(&self, name: TensorName) -> (r: Option<Tensor>)
        ensures
            r == self.spec_get(name),
    {
        let mut i: usize = self.entries.len();
        while i > 0
            invariant
                0 <= i <= self.entries@.len(),
                self.spec_get(name) == lookup_upto(self.entries@, name, i as nat),
            decreases i,
        {
            if self.entries[i - 1].0 == name {
                return Some(share(&self.entries[i - 1].1));
            }
            i -= 1;
        }
        None
    }

    /// A handle on the tensor bound to `name`, if there is one and it has
    /// the given shape.
    pub fn get_shaped(&self, name: TensorName, shape: &Vec<usize>) -> (r: Option<Tensor>)
        ensures
            match r {
                Some(t) => self.spec_get(name) == Some(t) && tensor_dims(t) == shape@,
                None => !(self.spec_get(name) matches Some(t) && tensor_dims(t) == shape@),
            },
    {
        match self.get(name) {
            None => None,
            Some(t) => {
                let d = shape_of(&t);
                if same_dims(&d, shape) {
                    Some(t)
                } else {
                    None
                }
            },
        }
    }
}

} // verus!
