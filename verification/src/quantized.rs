//! The quantized model families, which the backend implements whole: the
//! engine only runs their forward passes.

use vstd::prelude::*;
use candle_core::Tensor;
use candle_transformers::models::quantized_llama::ModelWeights;
use candle_transformers::models::quantized_mixformer::MixFormerSequentialForCausalLM;
use crate::tensor::tensor_dims;

verus! {

#[verifier::external_type_specification]
#[verifier::external_body]
pub struct ExModelWeights(ModelWeights);

#[verifier::external_type_specification]
#[verifier::external_body]
pub struct ExMixFormer(MixFormerSequentialForCausalLM);

/// The size of the vocabulary of a quantized llama model: the number of
/// rows of its output projection.
pub uninterp spec fn llama_vocabulary(model: ModelWeights) -> usize;

/// The size of the vocabulary of a quantized phi model: the number of rows
/// of the projection of its head.
pub uninterp spec fn phi_vocabulary(model: MixFormerSequentialForCausalLM) -> usize;

/// `quantized_llama::ModelWeights::forward`: the logits for the last of the
/// tokens in `x`, a batch of one row of at least one token id, which sit at
/// positions `index_pos` and up; the last position must be representable,
/// since the model adds the two.  The model keeps its own keys and values
/// and its vocabulary.  The logits come as one row, one per entry of the
/// vocabulary; nothing else is promised of them.
#[verifier::external_body]
pub(crate) fn quantized_llama_forward(model: &mut ModelWeights, x: &Tensor, index_pos: usize) -> (r:
    Result<Tensor, candle_core::Error>)
    requires
        tensor_dims(*x).len() == 2,
        tensor_dims(*x)[0] == 1,
        tensor_dims(*x)[1] >= 1,
        index_pos + tensor_dims(*x)[1] <= usize::MAX,
    ensures
        llama_vocabulary(*final(model)) == llama_vocabulary(*old(model)),
        r matches Ok(logits) ==> tensor_dims(logits) == seq![1usize, llama_vocabulary(*old(model))],
{
    model.forward(x, index_pos)
}

/// `quantized_mixformer::MixFormerSequentialForCausalLM::forward`: the logits
/// for the last of the tokens in `x`, a batch of one row of at least one
/// token id.  The model keeps its own keys and values and its vocabulary.
/// The logits come as one row, one per entry of the vocabulary; nothing else
/// is promised of them.
#[verifier::external_body]
pub(crate) fn quantized_phi_forward(model: &mut MixFormerSequentialForCausalLM, x: &Tensor) -> (r:
    Result<Tensor, candle_core::Error>)
    requires
        tensor_dims(*x).len() == 2,
        tensor_dims(*x)[0] == 1,
        tensor_dims(*x)[1] >= 1,
    ensures
        phi_vocabulary(*final(model)) == phi_vocabulary(*old(model)),
        r matches Ok(logits) ==> tensor_dims(logits) == seq![1usize, phi_vocabulary(*old(model))],
{
    model.forward(x)
}

} // verus!
