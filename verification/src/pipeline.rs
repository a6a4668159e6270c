//! The generation driver: a finite sequence of generated tokens over a
//! loaded model, a tokenizer and a sampler.

use vstd::prelude::*;
use candle_core::Tensor;
use candle_transformers::models::quantized_llama::ModelWeights;
use candle_transformers::models::quantized_mixformer::MixFormerSequentialForCausalLM;
use tokenizers::Tokenizer;
use crate::cache::Cache;
use crate::config::Config;
use crate::config::header_config;
use crate::config::header_valid;
use crate::config::HEADER_BYTES;
use crate::error::EngineError;
use crate::model::all_f32;
use crate::model::complete;
use crate::model::expected_shape;
use crate::model::needed;
use crate::model::Llama;
use crate::quantized::llama_vocabulary;
use crate::quantized::phi_vocabulary;
use crate::quantized::quantized_llama_forward;
use crate::quantized::quantized_phi_forward;
use crate::sampler::Sampler;
use crate::shape::checked_numel;
use crate::shape::dims1;
use crate::shape::dims2;
use crate::shape::lemma_numel_1;
use crate::shape::lemma_numel_2;
use crate::tensor::reshape;
use crate::text::has_prefix;
use crate::text::starts_with;
use crate::tensor::shape_of;
use crate::tensor::tensor_dims;
use crate::tensor::u32_tensor;
use crate::tokenizer::decode_tokens;
use crate::tokenizer::decoded_text;
use crate::tokenizer::encode_text;
use crate::tokenizer::print_token;
use crate::tokenizer::token_fragment;
use crate::tokenizer::vocabulary_entry;
use crate::tensor::tensor_is_f32;
use crate::weight_map::LayerPart;
use crate::weight_map::TensorName;
use crate::weight_map::WeightMap;
use crate::weights::is_layer_slice;
use crate::weights::legacy_bytes;
use crate::weights::legacy_shape;
use crate::weights::part_index;
use crate::cache::bad_table;
use crate::weights::TransformerWeights;

verus! {

/// The sampling and stopping parameters of a request.  The three floats are
/// carried as the bit patterns of 32-bit floats.
pub struct Parameters {
    /// The sampling temperature; zero asks for the most likely token.
    pub temperature_bits: u32,
    /// The number of tokens of the prompt to keep.  Reserved: the engine
    /// does not shorten the prompt.
    pub truncate: usize,
    /// The step at which generation stops at the latest.
    pub max_new_tokens: usize,
    /// Generation stops at a fragment that starts with one of these.
    pub stop: Vec<String>,
    /// The probability mass of the nucleus.
    pub top_p_bits: u32,
    /// The number of candidates to keep.  Reserved: the sampler does not
    /// apply it.
    pub top_k: usize,
    /// Reserved: the sampler does not apply it.
    pub repetition_penalty_bits: u32,
    /// Whether the reply repeats the prompt.  Reserved: the generated text
    /// never holds the prompt.
    pub return_full_text: bool,
}

/// A generation request: the prompt and the parameters.
pub struct Query {
    /// The prompt.
    pub inputs: String,
    /// The parameters.
    pub parameters: Parameters,
}

/// A generated token.
pub struct Token {
    /// The id in the vocabulary.
    pub id: usize,
    /// The log-probability, as the bit pattern of a 32-bit float: always zero.
    pub logprob_bits: u32,
    /// The text fragment shown for the token.
    pub text: String,
    /// Whether the token is a control token: never, for generated tokens.
    pub special: bool,
}

/// One item of a generation: the token, and on the last item the whole
/// generated text.
pub struct Generation {
    /// The token.
    pub token: Token,
    /// The text of all generated tokens, on the last item only.
    pub generated_text: Option<String>,
}

/// The model families.
#[derive(Clone, Copy, Debug, PartialEq, Eq, Structural)]
pub enum Family {
    /// A quantized llama model in a tagged container.
    QuantizedLlama,
    /// A small llama model in the fixed-order dump.
    LlamaC,
    /// A quantized phi model in a tagged container.
    QuantizedPhi,
}

/// A loaded model of one of the families.
pub enum Engine {
    /// A quantized llama model.
    QuantizedLlama(ModelWeights),
    /// A small llama model with the cache of its session.
    LlamaC(Llama, Cache),
    /// A quantized phi model.
    QuantizedPhi(MixFormerSequentialForCausalLM),
}

/// Whether `text` starts with one of the stop strings.
pub open spec fn hits_stop(stop: Seq<String>, text: Seq<char>) -> bool {
    exists|k: int| 0 <= k < stop.len() && has_prefix(text, #[trigger] stop[k]@)
}

/// The number of consecutive line-break fragments that end with a fragment:
/// one more than before for a line break, none otherwise.  The count stops
/// at [`NEWLINE_RUN`].
pub open spec fn next_run(run: nat, text: Seq<char>) -> nat {
    if text == seq!['\n'] {
        if run < NEWLINE_RUN {
            run + 1
        } else {
            run
        }
    } else {
        0
    }
}

/// The number of consecutive line-break fragments at which the phi family
/// stops, for want of a clean end token.
pub const NEWLINE_RUN: usize = 3;

/// The stop predicate of a step: the step counter has reached the limit, or
/// the fragment starts with a stop string, or the family's own rule fires.
/// `step` counts the steps before this one, `run` the consecutive line-break
/// fragments including this one.
pub open spec fn stops(
    family: Family,
    max_new_tokens: usize,
    stop: Seq<String>,
    step: nat,
    text: Seq<char>,
    run: nat,
) -> bool {
    ||| step == max_new_tokens
    ||| hits_stop(stop, text)
    ||| family == Family::QuantizedPhi && run == NEWLINE_RUN
}

/// Whether `text` starts with one of the stop strings.
pub fn matches_stop(stop: &Vec<String>, text: &str) -> (r: bool)
    ensures
        r == hits_stop(stop@, text@),
{
    let mut k: usize = 0;
    while k < stop.len()
        invariant
            0 <= k <= stop@.len(),
            forall|j: int| 0 <= j < k ==> !has_prefix(text@, #[trigger] stop@[j]@),
        decreases stop@.len() - k,
    {
        if starts_with(text, stop[k].as_str()) {
            return true;
        }
        k += 1;
    }
    false
}

/// Decides whether a step is the last one.
pub fn should_stop(
    family: Family,
    parameters: &Parameters,
    step: usize,
    text: &str,
    run: usize,
) -> (r: bool)
    ensures
        r == stops(family, parameters.max_new_tokens, parameters.stop@, step as nat, text@, run as nat),
{
    if step == parameters.max_new_tokens {
        return true;
    }
    if matches_stop(&parameters.stop, text) {
        return true;
    }
    match family {
        Family::QuantizedPhi => run == NEWLINE_RUN,
        _ => false,
    }
}

/// Whether a fixed-order dump can hold a model of the configuration: the
/// model has no layers, or as many key/value heads as query heads.
pub open spec fn legacy_holds(c: Config) -> bool {
    c.n_layers == 0 || c.n_kv_heads == c.n_heads
}

/// The names that the tensors of a dump get bind 32-bit floats, and they
/// bind every tensor of the model to its shape exactly when the dump can hold
/// the model.
pub proof fn lemma_legacy_names(w: TransformerWeights, m: WeightMap, c: Config)
    requires
        c.wf(),
        w.shaped(c),
        w.all_f32(),
        w.names(m, c),
    ensures
        all_f32(m, c),
        complete(m, c) <==> legacy_holds(c),
        !bad_table(m, c, TensorName::RotaryReal),
        !bad_table(m, c, TensorName::RotaryImag),
{
    c.lemma_heads();
    assert(tensor_is_f32(w.tensor(11)) && tensor_is_f32(w.tensor(12)));
    let head = c.spec_head_size();
    let kv = c.spec_kv_dim();
    assert forall|name: TensorName| needed(c, name) implies (#[trigger] m.spec_get(name) matches Some(
        t,
    ) ==> tensor_is_f32(t)) by {
        match name {
            TensorName::Layer(layer, part) => {
                let t = m.spec_get(TensorName::Layer(layer, part)).unwrap();
                assert(is_layer_slice(t, w.tensor(part_index(part)), layer as int));
                assert(tensor_is_f32(w.tensor(part_index(part))));
            },
            TensorName::EmbedTokens => {
                assert(tensor_is_f32(w.tensor(0)));
            },
            TensorName::LmHead => {
                assert(tensor_is_f32(w.tensor(0)));
            },
            _ => {
                assert(tensor_is_f32(w.tensor(10)));
            },
        }
    }
    assert(seq![c.n_layers, c.dim].skip(1) =~= seq![c.dim]);
    assert(seq![c.n_layers, c.dim, c.dim].skip(1) =~= seq![c.dim, c.dim]);
    assert(seq![c.n_layers, c.hidden_dim, c.dim].skip(1) =~= seq![c.hidden_dim, c.dim]);
    assert(seq![c.n_layers, c.dim, c.hidden_dim].skip(1) =~= seq![c.dim, c.hidden_dim]);
    assert(tensor_dims(w.tensor(0)) == legacy_shape(c, 0));
    assert(tensor_dims(w.tensor(10)) == legacy_shape(c, 10));
    assert(kv == c.dim <==> c.n_kv_heads == c.n_heads) by (nonlinear_arith)
        requires
            kv == head * (c.n_kv_heads as nat),
            head * (c.n_heads as nat) == c.dim,
            head > 0,
    ;
    if legacy_holds(c) {
        assert forall|name: TensorName| needed(c, name) implies (#[trigger] m.spec_get(name) matches Some(
            t,
        ) && tensor_dims(t) == expected_shape(c, name)) by {
            match name {
                TensorName::Layer(layer, part) => {
                    let t = m.spec_get(TensorName::Layer(layer, part)).unwrap();
                    let k = part_index(part);
                    assert(is_layer_slice(t, w.tensor(k), layer as int));
                    assert(tensor_dims(w.tensor(k)) == legacy_shape(c, k));
                    assert(tensor_dims(t) =~= expected_shape(c, name));
                },
                _ => {},
            }
        }
    } else {
        let name = TensorName::Layer(0, LayerPart::Key);
        assert(needed(c, name));
        let t = m.spec_get(name).unwrap();
        assert(is_layer_slice(t, w.tensor(3), 0));
        assert(tensor_dims(w.tensor(3)) == legacy_shape(c, 3));
        assert(tensor_dims(t)[0] == c.dim);
        assert(expected_shape(c, name)[0] == kv);
    }
}

impl Engine {
    /// The family of the model.
    pub open spec fn spec_family(&self) -> Family {
        match self {
            Engine::QuantizedLlama(_) => Family::QuantizedLlama,
            Engine::LlamaC(_, _) => Family::LlamaC,
            Engine::QuantizedPhi(_) => Family::QuantizedPhi,
        }
    }

    /// The invariant of a loaded model: a small llama model is well-formed,
    /// and so is its cache, made for the same configuration.
    pub open spec fn wf(&self) -> bool {
        match self {
            Engine::LlamaC(model, cache) => model.wf() && cache.wf() && cache.config()
                == model.spec_config(),
            _ => true,
        }
    }

    /// Whether every layer of the session's cache holds `n` positions.  It
    /// is true of the families that keep their own state, and of a cache
    /// that does not keep keys and values.
    pub open spec fn holds_positions(&self, n: nat) -> bool {
        match self {
            Engine::LlamaC(model, cache) => cache.caching() ==> forall|layer: int|
                0 <= layer < model.spec_config().n_layers ==> #[trigger] cache.layer_len(layer) == n,
            _ => true,
        }
    }

    /// The size of the vocabulary.
    pub open spec fn vocabulary(&self) -> nat {
        match self {
            Engine::LlamaC(model, _) => model.spec_config().vocab_size as nat,
            Engine::QuantizedLlama(model) => llama_vocabulary(*model) as nat,
            Engine::QuantizedPhi(model) => phi_vocabulary(*model) as nat,
        }
    }

    /// The length of the context window, for a small llama model; the
    /// quantized families keep it to themselves.
    pub open spec fn context_window(&self) -> Option<nat> {
        match self {
            Engine::LlamaC(model, _) => Some(model.spec_config().seq_len as nat),
            _ => None,
        }
    }

    /// Whether a forward pass over `count` tokens at `index_pos` is refused
    /// before it starts: a small llama model would leave its context window,
    /// a quantized llama model could not number the last position.
    pub open spec fn overflows(&self, index_pos: usize, count: nat) -> bool {
        match self {
            Engine::LlamaC(model, cache) => model.overflows(*cache, index_pos, count),
            Engine::QuantizedLlama(_) => index_pos + count > usize::MAX,
            Engine::QuantizedPhi(_) => false,
        }
    }

    /// For an engine whose cache holds the positions before `index_pos`, a
    /// pass is refused before it starts exactly when its last position lies
    /// beyond the context window, or cannot be numbered.
    pub proof fn lemma_overflows(&self, index_pos: usize, count: nat)
        requires
            self.wf(),
            self.holds_positions(index_pos as nat),
            index_pos + count <= usize::MAX,
        ensures
            self.overflows(index_pos, count) <==> index_pos + count > (match self.context_window() {
                Some(w) => w,
                None => usize::MAX as nat,
            }),
    {
        match self {
            Engine::LlamaC(model, cache) => {
                cache.lemma_wf();
                if model.overflows(*cache, index_pos, count) && index_pos + count
                    <= model.spec_config().seq_len {
                    let layer = choose|layer: int|
                        0 <= layer < model.spec_config().n_layers && #[trigger] cache.layer_len(layer)
                            + count > model.spec_config().seq_len;
                    if cache.caching() {
                        assert(cache.layer_len(layer) == index_pos);
                    } else {
                        assert(cache.layer_len(layer) == 0);
                    }
                }
            },
            _ => {},
        }
    }

    /// The family of the model.
    pub fn family(&self) -> (f: Family)
        ensures
            f == self.spec_family(),
    {
        match self {
            Engine::QuantizedLlama(_) => Family::QuantizedLlama,
            Engine::LlamaC(_, _) => Family::LlamaC,
            Engine::QuantizedPhi(_) => Family::QuantizedPhi,
        }
    }

    /// Builds a small llama model and the cache of its session from a
    /// weight map.  It succeeds exactly when the configuration is well-formed
    /// and the map binds every tensor that the model reads, and every rotary
    /// table it holds, to 32-bit floats of the right shape.
    pub fn from_weights(weights: &WeightMap, config: Config, use_kv_cache: bool) -> (r: Result<
        Engine,
        EngineError,
    >)
        ensures
            r is Ok <==> config.wf() && complete(*weights, config) && all_f32(*weights, config)
                && !bad_table(*weights, config, TensorName::RotaryReal) && !bad_table(
                *weights,
                config,
                TensorName::RotaryImag,
            ),
            match r {
                Ok(engine) => engine.wf() && engine.spec_family() == Family::LlamaC
                    && engine.holds_positions(0) && (engine matches Engine::LlamaC(model, cache)
                    && model.spec_config() == config && cache.caching() == use_kv_cache),
                Err(e) => e == (if !config.wf() {
                    EngineError::ArchitectureMismatch
                } else if bad_table(*weights, config, TensorName::RotaryReal) || bad_table(
                    *weights,
                    config,
                    TensorName::RotaryImag,
                ) {
                    EngineError::UnsupportedDtype
                } else if !complete(*weights, config) {
                    EngineError::ArchitectureMismatch
                } else {
                    EngineError::UnsupportedDtype
                }),
            },
    {
        let cache = match Cache::new(use_kv_cache, &config, weights) {
            Ok(cache) => cache,
            Err(e) => {
                return Err(e);
            },
        };
        let model = match Llama::load(weights, config) {
            Ok(model) => model,
            Err(e) => {
                return Err(e);
            },
        };
        Ok(Engine::LlamaC(model, cache))
    }

    /// Reads a small llama model from a fixed-order dump: the header, then
    /// the tensors.  The session's cache keeps keys and values.  The dump
    /// stores the key and value projections at full width, so a model with
    /// layers can be read from it only where every query head has a
    /// key/value head of its own.  A dump that is complete, valid and can
    /// hold its model is read.
    pub fn from_legacy_bytes(bytes: &[u8]) -> (r: Result<Engine, EngineError>)
        ensures
            bytes@.len() < HEADER_BYTES ==> (r matches Err(e) && e == EngineError::IoTruncated),
            bytes@.len() >= HEADER_BYTES && !header_valid(bytes@) ==> (r matches Err(e) && e
                == EngineError::ArchitectureMismatch),
            bytes@.len() >= HEADER_BYTES && header_valid(bytes@) && bytes@.len() - HEADER_BYTES
                < legacy_bytes(header_config(bytes@)) ==> (r matches Err(e) && e
                == EngineError::IoTruncated),
            bytes@.len() >= HEADER_BYTES && header_valid(bytes@) && bytes@.len() - HEADER_BYTES
                >= legacy_bytes(header_config(bytes@)) && !legacy_holds(header_config(bytes@)) ==> (
            r matches Err(e) && e == EngineError::ArchitectureMismatch),
            bytes@.len() >= HEADER_BYTES && header_valid(bytes@) && bytes@.len() - HEADER_BYTES
                >= legacy_bytes(header_config(bytes@)) && legacy_holds(header_config(bytes@))
                ==> r is Ok,
            r matches Ok(engine) ==> engine.wf() && engine.spec_family() == Family::LlamaC
                && engine.holds_positions(0) && (engine matches Engine::LlamaC(model, cache)
                && model.spec_config() == header_config(bytes@) && cache.caching()),
    {
        let config = match Config::from_reader(bytes) {
            Ok(config) => config,
            Err(e) => {
                return Err(e);
            },
        };
        let body = vstd::slice::slice_subrange(bytes, HEADER_BYTES, bytes.len());
        let weights = match TransformerWeights::from_reader(body, &config) {
            Ok(weights) => weights,
            Err(e) => {
                return Err(e);
            },
        };
        let named = match weights.var_builder(&config) {
            Ok(named) => named,
            Err(e) => {
                return Err(e);
            },
        };
        proof {
            lemma_legacy_names(weights, named, config);
        }
        Engine::from_weights(&named, config, true)
    }

    /// Whether a forward pass over `tokens` at `index_pos` is owed its
    /// logits: the model is a small llama model, there are tokens, and the
    /// pass neither overflows nor is refused.
    pub open spec fn owes(&self, index_pos: usize, tokens: Seq<u32>) -> bool {
        match self {
            Engine::LlamaC(model, cache) => tokens.len() >= 1 && !model.overflows(
                *cache,
                index_pos,
                tokens.len(),
            ) && !model.refuses(*cache, tokens),
            _ => false,
        }
    }

    /// Whether a forward pass over `tokens` is refused although it fits, by
    /// a small llama model.
    pub open spec fn refuses(&self, tokens: Seq<u32>) -> bool {
        match self {
            Engine::LlamaC(model, cache) => model.refuses(*cache, tokens),
            _ => false,
        }
    }

    /// Runs the model over the pending tokens, which sit at positions
    /// `index_pos` and up, and returns the logits over the vocabulary for the
    /// last of them: a one-dimensional tensor with at least one entry, one
    /// per entry of the vocabulary.  Without
    /// tokens there is nothing to run; a pass that is refused before it
    /// starts overflows the context or is refused; all these leave the engine
    /// as it was.  A small llama model gives its logits on every other
    /// pass; of the quantized families nothing is promised.
    pub fn forward(&mut self, tokens: &Vec<u32>, index_pos: usize) -> (r: Result<
        Tensor,
        EngineError,
    >)
        requires
            old(self).wf(),
        ensures
            final(self).wf(),
            final(self).spec_family() == old(self).spec_family(),
            final(self).vocabulary() == old(self).vocabulary(),
            final(self).context_window() == old(self).context_window(),
            tokens@.len() == 0 ==> r == Err::<Tensor, EngineError>(
                EngineError::NumericBackendError,
            ) && *final(self) == *old(self),
            tokens@.len() >= 1 && old(self).overflows(index_pos, tokens@.len()) ==> r == Err::<
                Tensor,
                EngineError,
            >(EngineError::ContextOverflow) && *final(self) == *old(self),
            tokens@.len() >= 1 && !old(self).overflows(index_pos, tokens@.len()) && old(self).refuses(tokens@) ==> r == Err::<Tensor, EngineError>(
                EngineError::NumericBackendError,
            ) && *final(self) == *old(self),
            old(self).owes(index_pos, tokens@) ==> r is Ok,
            match r {
                Ok(logits) => {
                    &&& tensor_dims(logits).len() == 1
                    &&& tensor_dims(logits)[0] >= 1
                    &&& tensor_dims(logits)[0] == old(self).vocabulary()
                    &&& old(self).spec_family() == Family::LlamaC ==> tensor_is_f32(logits)
                    &&& tokens@.len() >= 1
                    &&& forall|n: nat|
                        old(self).holds_positions(n) ==> #[trigger] final(self).holds_positions(
                            n + tokens@.len(),
                        )
                },
                Err(e) => e == EngineError::NumericBackendError || (e
                    == EngineError::ContextOverflow && tokens@.len() >= 1 && old(self).overflows(
                    index_pos,
                    tokens@.len(),
                )),
            },
    {
        if tokens.len() == 0 {
            return Err(EngineError::NumericBackendError);
        }
        match self {
            Engine::LlamaC(model, cache) => {
                proof {
                    model.lemma_wf();
                }
                let ghost before = *cache;
                let logits = match model.forward(tokens.as_slice(), index_pos, cache) {
                    Ok(logits) => logits,
                    Err(e) => {
                        return Err(e);
                    },
                };
                proof {
                    assert forall|n: nat|
                        Engine::LlamaC(*model, before).holds_positions(n) implies #[trigger] Engine::LlamaC(
                        *model,
                        *cache,
                    ).holds_positions(n + tokens@.len()) by {
                        if cache.caching() {
                            assert forall|layer: int|
                                0 <= layer < model.spec_config().n_layers implies #[trigger] cache.layer_len(
                                layer,
                            ) == n + tokens@.len() by {
                                assert(before.layer_len(layer) == n);
                            }
                        }
                    }
                }
                Ok(logits)
            },
            Engine::QuantizedLlama(model) => {
                if index_pos > usize::MAX - tokens.len() {
                    return Err(EngineError::ContextOverflow);
                }
                let x = token_row(tokens)?;
                let raw = match quantized_llama_forward(model, &x, index_pos) {
                    Ok(t) => t,
                    Err(_) => {
                        return Err(EngineError::NumericBackendError);
                    },
                };
                flat_logits(raw, Ghost(llama_vocabulary(*model)))
            },
            Engine::QuantizedPhi(model) => {
                let x = token_row(tokens)?;
                let raw = match quantized_phi_forward(model, &x) {
                    Ok(t) => t,
                    Err(_) => {
                        return Err(EngineError::NumericBackendError);
                    },
                };
                flat_logits(raw, Ghost(phi_vocabulary(*model)))
            },
        }
    }
}

/// A batch of one row that holds the given token ids.
fn token_row(tokens: &Vec<u32>) -> (r: Result<Tensor, EngineError>)
    requires
        tokens@.len() >= 1,
    ensures
        match r {
            Ok(x) => tensor_dims(x) == seq![1usize, tokens@.len() as usize],
            Err(e) => e == EngineError::NumericBackendError,
        },
{
    let n = tokens.len();
    proof {
        lemma_numel_1(n);
        assert(1 * n == n) by (nonlinear_arith);
    }
    let flat = match u32_tensor(tokens.as_slice()) {
        Ok(t) => t,
        Err(_) => {
            return Err(EngineError::NumericBackendError);
        },
    };
    let shape = dims2(1, n);
    match reshape(&flat, shape.as_slice()) {
        Ok(t) => Ok(t),
        Err(_) => Err(EngineError::NumericBackendError),
    }
}

/// The logits of one row as a one-dimensional tensor; a row without
/// entries is no logits.
fn flat_logits(raw: Tensor, Ghost(v): Ghost<usize>) -> (r: Result<Tensor, EngineError>)
    requires
        tensor_dims(raw) == seq![1usize, v],
    ensures
        v >= 1 ==> (r matches Ok(logits) && tensor_dims(logits) == seq![v]),
        v == 0 ==> r == Err::<Tensor, EngineError>(EngineError::NumericBackendError),
{
    let dims = shape_of(&raw);
    let width = dims[1];
    proof {
        lemma_numel_2(1, width);
        lemma_numel_1(width);
        assert(1 * width == width) by (nonlinear_arith);
    }
    if width == 0 {
        return Err(EngineError::NumericBackendError);
    }
    let shape = dims1(width);
    Ok(reshape(&raw, shape.as_slice()).unwrap())
}

/// A model with everything a generation needs: the tokenizer, the request,
/// the tokens of the prompt and the sampler.
pub struct Pipeline {
    engine: Engine,
    tokenizer: Tokenizer,
    query: Query,
    tokens: Vec<u32>,
    logits_processor: Sampler,
}

/// The state of a generation: the pending tokens, the generated ones, the
/// step counter and whether the sequence has ended.
pub struct PipelineIter {
    pipeline: Pipeline,
    tokens: Vec<u32>,
    all_tokens: Vec<u32>,
    i: usize,
    last: bool,
    count: usize,
    index_pos: usize,
}

/// Prepares a generation: encodes the prompt and builds the sampler from the
/// request's temperature and nucleus mass, with seed zero.  The prompt is
/// what the tokenizer gives for the request's text this time; only the
/// tokenizer can refuse.
pub fn load_local(query: Query, tokenizer: Tokenizer, engine: Engine) -> (r: Result<
    Pipeline,
    EngineError,
>)
    requires
        engine.wf(),
        engine.holds_positions(0),
    ensures
        match r {
            Ok(p) => exists|tokens: Seq<u32>| p.assembled(query, tokenizer, engine, tokens),
            Err(e) => e == EngineError::TokenizerError,
        },
{
    match encode_text(&tokenizer, query.inputs.as_str(), true) {
        Ok(tokens) => Ok(Pipeline::with_prompt(query, tokenizer, engine, tokens)),
        Err(_) => Err(EngineError::TokenizerError),
    }
}

impl Pipeline {
    /// The loaded model.
    pub closed spec fn spec_engine(&self) -> Engine {
        self.engine
    }

    /// The tokenizer.
    pub closed spec fn spec_tokenizer(&self) -> Tokenizer {
        self.tokenizer
    }

    /// The request.
    pub closed spec fn spec_query(&self) -> Query {
        self.query
    }

    /// The token ids of the prompt.
    pub closed spec fn prompt(&self) -> Seq<u32> {
        self.tokens@
    }

    /// The sampler.
    pub closed spec fn sampler(&self) -> Sampler {
        self.logits_processor
    }

    /// The invariant of a pipeline: that of its model, whose session has
    /// not begun, and that of its sampler.
    pub closed spec fn wf(&self) -> bool {
        self.engine.wf() && self.engine.holds_positions(0) && self.logits_processor.wf()
    }

    /// Whether the pipeline is the one made of the given parts: it holds
    /// them, and its sampler was made with seed zero and the request's
    /// temperature and nucleus mass and has seen no logits.
    pub open spec fn assembled(
        &self,
        query: Query,
        tokenizer: Tokenizer,
        engine: Engine,
        tokens: Seq<u32>,
    ) -> bool {
        &&& self.wf()
        &&& self.spec_engine() == engine
        &&& self.spec_tokenizer() == tokenizer
        &&& self.spec_query() == query
        &&& self.prompt() == tokens
        &&& self.sampler().seed() == 0
        &&& self.sampler().temperature_bits() == query.parameters.temperature_bits
        &&& self.sampler().top_p_bits() == query.parameters.top_p_bits
        &&& self.sampler().seen() == Seq::<Tensor>::empty()
    }

    /// Assembles a pipeline from a request, a tokenizer, a model and the
    /// token ids of the prompt, with a fresh sampler.
    pub fn with_prompt(query: Query, tokenizer: Tokenizer, engine: Engine, tokens: Vec<u32>) -> (p:
        Pipeline)
        requires
            engine.wf(),
            engine.holds_positions(0),
        ensures
            p.assembled(query, tokenizer, engine, tokens@),
    {
        let logits_processor = Sampler::new(
            0,
            query.parameters.temperature_bits,
            query.parameters.top_p_bits,
        ).unwrap();
        Pipeline { engine, tokenizer, query, tokens, logits_processor }
    }

    /// Starts the generation.  The pipeline is used up: one pipeline serves
    /// one request.
    pub fn iter(self) -> (it: PipelineIter)
        requires
            self.wf(),
        ensures
            it.wf(),
            it.spec_pipeline() == self,
            it.pending() == self.prompt(),
            it.history() == Seq::<u32>::empty(),
            it.steps() == 0,
            !it.finished(),
            it.newline_run() == 0,
            it.position() == 0,
            it.holds_positions(0),
            it.sampler() == self.sampler(),
            it.spec_engine() == self.spec_engine(),
    {
        let tokens = self.tokens.clone();
        PipelineIter {
            tokens,
            all_tokens: Vec::new(),
            pipeline: self,
            i: 0,
            last: false,
            count: 0,
            index_pos: 0,
        }
    }
}

impl PipelineIter {
    /// The pipeline that the generation runs on.
    pub closed spec fn spec_pipeline(&self) -> Pipeline {
        self.pipeline
    }

    /// The tokens that the next step feeds to the model: the prompt at
    /// first, then the token generated last.
    pub closed spec fn pending(&self) -> Seq<u32> {
        self.tokens@
    }

    /// The ids of the tokens generated so far.
    pub closed spec fn history(&self) -> Seq<u32> {
        self.all_tokens@
    }

    /// The number of steps taken.
    pub closed spec fn steps(&self) -> nat {
        self.i as nat
    }

    /// Whether the sequence has ended.
    pub closed spec fn finished(&self) -> bool {
        self.last
    }

    /// The number of consecutive line-break fragments generated last.
    pub closed spec fn newline_run(&self) -> nat {
        self.count as nat
    }

    /// The number of tokens fed to the model so far, which is the position
    /// of the first pending token.
    pub open spec fn position(&self) -> nat {
        self.index() as nat
    }

    /// The position of the first pending token, as the engine takes it.
    pub closed spec fn index(&self) -> usize {
        self.index_pos
    }

    /// The loaded model, in the state that the steps so far left it in.
    pub closed spec fn spec_engine(&self) -> Engine {
        self.pipeline.engine
    }

    /// Whether the model owes its logits to the pending tokens: it is a
    /// small llama model, there are pending tokens, and the pass over them
    /// neither overflows nor is refused.
    pub open spec fn engine_owes(&self) -> bool {
        self.spec_engine().owes(self.index(), self.pending())
    }

    /// Whether two states carry the same request: the limit on steps, the
    /// stop strings, the family, the tokenizer, and what the sampler was
    /// made with.
    pub open spec fn same_request(&self, other: PipelineIter) -> bool {
        &&& self.max_new_tokens() == other.max_new_tokens()
        &&& self.stop_strings() == other.stop_strings()
        &&& self.spec_family() == other.spec_family()
        &&& self.spec_tokenizer() == other.spec_tokenizer()
        &&& self.sampler().seed() == other.sampler().seed()
        &&& self.sampler().temperature_bits() == other.sampler().temperature_bits()
        &&& self.sampler().top_p_bits() == other.sampler().top_p_bits()
    }

    /// The sampler, with the logits it has seen.
    pub closed spec fn sampler(&self) -> Sampler {
        self.pipeline.logits_processor
    }

    /// Whether `token` is what the sampler drew from `logits`, which it has
    /// seen since: the draw of its seed and parameters on all the logits it
    /// has seen.
    pub open spec fn drew(before: PipelineIter, after: PipelineIter, logits: Tensor, token: u32) -> bool {
        &&& after.sampler().seed() == before.sampler().seed()
        &&& after.sampler().temperature_bits() == before.sampler().temperature_bits()
        &&& after.sampler().top_p_bits() == before.sampler().top_p_bits()
        &&& after.sampler().seen() == before.sampler().seen().push(logits)
        &&& Sampler::draw(
            before.sampler().seed(),
            before.sampler().temperature_bits(),
            before.sampler().top_p_bits(),
            after.sampler().seen(),
        ) == Some(token)
    }

    /// The family of the model.
    pub closed spec fn spec_family(&self) -> Family {
        self.pipeline.engine.spec_family()
    }

    /// The step at which generation stops at the latest.
    pub closed spec fn max_new_tokens(&self) -> usize {
        self.pipeline.query.parameters.max_new_tokens
    }

    /// The stop strings of the request.
    pub closed spec fn stop_strings(&self) -> Seq<String> {
        self.pipeline.query.parameters.stop@
    }

    /// The tokenizer.
    pub closed spec fn spec_tokenizer(&self) -> Tokenizer {
        self.pipeline.tokenizer
    }

    /// Whether every layer of a cache of the session holds `n` positions.
    pub open spec fn holds_positions(&self, n: nat) -> bool {
        self.spec_engine().holds_positions(n)
    }

    /// The invariant of a generation.  While it runs, every step taken has
    /// generated one token, the step counter has not passed the limit, and
    /// a cache of the session holds exactly the tokens fed so far.
    pub closed spec fn wf(&self) -> bool {
        &&& self.pipeline.engine.wf()
        &&& self.pipeline.logits_processor.wf()
        &&& self.count <= NEWLINE_RUN
        &&& !self.last ==> {
            &&& self.all_tokens@.len() == self.i
            &&& self.i <= self.pipeline.query.parameters.max_new_tokens
            &&& self.pipeline.engine.holds_positions(self.index_pos as nat)
        }
        &&& self.last ==> self.i <= self.pipeline.query.parameters.max_new_tokens + 1
    }

    /// The invariant of the model.
    pub open spec fn engine_wf(&self) -> bool {
        self.spec_engine().wf()
    }

    /// What the invariant gives of a running generation: the model and the
    /// sampler are well-formed, every step taken has generated one token,
    /// the step counter has not passed the limit, and a cache of the session
    /// holds exactly the tokens fed so far.
    pub proof fn lemma_running(&self)
        requires
            self.wf(),
            !self.finished(),
        ensures
            self.engine_wf(),
            self.sampler().wf(),
            self.newline_run() <= NEWLINE_RUN,
            self.history().len() == self.steps(),
            self.steps() <= self.max_new_tokens(),
            self.holds_positions(self.position()),
    {
    }

    /// A generation never takes more than one step beyond its limit, and a
    /// running one has not passed the limit: with a limit of `M`, at most
    /// `M + 1` forward passes are made.
    pub proof fn lemma_steps_bounded(&self)
        requires
            self.wf(),
        ensures
            self.steps() <= self.max_new_tokens() + 1,
            !self.finished() ==> self.steps() <= self.max_new_tokens(),
            !self.finished() ==> self.history().len() == self.steps(),
    {
    }

    /// While a generation runs, every layer of a cache of its session holds
    /// exactly the tokens fed to the model so far.
    pub proof fn lemma_cache_holds_fed(&self)
        requires
            self.wf(),
            !self.finished(),
        ensures
            self.holds_positions(self.position()),
    {
    }

    /// Whether the sequence has ended.
    pub fn is_finished(&self) -> (r: bool)
        ensures
            r == self.finished(),
    {
        self.last
    }

    /// The number of steps taken.
    pub fn step_count(&self) -> (r: usize)
        ensures
            r == self.steps(),
    {
        self.i
    }

    /// The ids of the tokens generated so far.
    pub fn generated_ids(&self) -> (r: Vec<u32>)
        ensures
            r@ == self.history(),
    {
        self.all_tokens.clone()
    }

    /// The text fragment of a generated token: for the phi family the
    /// decoding of the token alone, for the others the vocabulary's entry
    /// made readable.
    pub open spec fn fragment(family: Family, tokenizer: Tokenizer, token: u32) -> Option<Seq<char>> {
        match family {
            Family::QuantizedPhi => decoded_text(tokenizer, seq![token], true),
            _ => Some(token_fragment(vocabulary_entry(tokenizer, token))),
        }
    }

    /// What a step that generated `token` leaves behind and hands out, for
    /// a generation in state `before`.
    pub open spec fn stepped(before: PipelineIter, after: PipelineIter, token: u32, g: Generation) -> bool {
        let text = g.token.text@;
        let stop = stops(
            before.spec_family(),
            before.max_new_tokens(),
            before.stop_strings(),
            before.steps(),
            text,
            after.newline_run(),
        );
        &&& after.same_request(before)
        &&& g.token.id == token
        &&& g.token.logprob_bits == 0
        &&& !g.token.special
        &&& Some(text) == Self::fragment(before.spec_family(), before.spec_tokenizer(), token)
        &&& after.history() == before.history().push(token)
        &&& after.pending() == seq![token]
        &&& after.steps() == before.steps() + 1
        &&& after.position() == before.position() + before.pending().len()
        &&& after.newline_run() == next_run(before.newline_run(), text)
        &&& after.finished() == stop
        &&& match g.generated_text {
            Some(full) => stop && decoded_text(before.spec_tokenizer(), after.history(), true)
                == Some(full@),
            None => !stop,
        }
    }

    /// The size of the vocabulary.
    pub open spec fn vocabulary(&self) -> nat {
        self.spec_engine().vocabulary()
    }

    /// The length of the context window, where the engine knows it.
    pub open spec fn context_window(&self) -> Option<nat> {
        self.spec_engine().context_window()
    }

    /// Whether there are pending tokens and they do not fit: their last
    /// position lies beyond the context window, or cannot be numbered.
    pub open spec fn leaves_window(&self) -> bool {
        self.pending().len() >= 1 && self.position() + self.pending().len() > (
        match self.context_window() {
            Some(w) => w,
            None => usize::MAX as nat,
        })
    }

    /// Whether the tokenizer lets a step that generated `token` end well: it
    /// gives the token's fragment and, where the step is the last, the text
    /// of all generated tokens.
    pub open spec fn succeeds(before: PipelineIter, token: u32) -> bool {
        match Self::fragment(before.spec_family(), before.spec_tokenizer(), token) {
            None => false,
            Some(text) => stops(
                before.spec_family(),
                before.max_new_tokens(),
                before.stop_strings(),
                before.steps(),
                text,
                next_run(before.newline_run(), text),
            ) ==> decoded_text(before.spec_tokenizer(), before.history().push(token), true) is Some,
        }
    }

    /// Whether two states agree on everything but the model and the
    /// sampler: the tokens pending and generated, the counters, and whether
    /// the sequence has ended.
    pub open spec fn same_progress(&self, other: PipelineIter) -> bool {
        &&& self.pending() == other.pending()
        &&& self.history() == other.history()
        &&& self.steps() == other.steps()
        &&& self.position() == other.position()
        &&& self.newline_run() == other.newline_run()
        &&& self.finished() == other.finished()
        &&& self.spec_family() == other.spec_family()
        &&& self.max_new_tokens() == other.max_new_tokens()
        &&& self.stop_strings() == other.stop_strings()
        &&& self.spec_tokenizer() == other.spec_tokenizer()
        &&& self.vocabulary() == other.vocabulary()
        &&& self.context_window() == other.context_window()
    }

    /// The rest of a step, once the model has run on the pending tokens and
    /// `next_token` was drawn: the token's fragment, the stop predicate, the
    /// text of all generated tokens on the last step, and the new state.
    /// The step ends well exactly when the tokenizer lets it; a tokenizer
    /// that refuses leaves the state as it was.
    fn conclude(&mut self, next_token: u32, next_pos: usize) -> (r: Result<
        Generation,
        EngineError,
    >)
        requires
            old(self).engine_wf(),
            !old(self).finished(),
            old(self).newline_run() <= NEWLINE_RUN,
            old(self).history().len() == old(self).steps(),
            old(self).steps() <= old(self).max_new_tokens(),
            next_pos == old(self).position() + old(self).pending().len(),
            old(self).holds_positions(next_pos as nat),
            old(self).sampler().wf(),
        ensures
            final(self).same_request(*old(self)),
            final(self).sampler() == old(self).sampler(),
            Self::succeeds(*old(self), next_token) ==> (r matches Ok(g) && Self::stepped(
                *old(self),
                *final(self),
                next_token,
                g,
            )) && final(self).wf() && final(self).same_engine(*old(self)),
            !Self::succeeds(*old(self), next_token) ==> r == Err::<Generation, EngineError>(
                EngineError::TokenizerError,
            ) && *final(self) == *old(self),
    {
        let family = self.pipeline.engine.family();
        let text = match family {
            Family::QuantizedPhi => {
                let one = vec![next_token];
                assert(one@ =~= seq![next_token]);
                match decode_tokens(&self.pipeline.tokenizer, &one, true) {
                    Ok(text) => text,
                    Err(_) => {
                        return Err(EngineError::TokenizerError);
                    },
                }
            },
            _ => print_token(next_token, &self.pipeline.tokenizer),
        };
        let newline = "\n".to_string();
        proof {
            reveal_strlit("\n");
            assert("\n"@ =~= seq!['\n']);
        }
        let run: usize = if text == newline {
            if self.count < NEWLINE_RUN {
                self.count + 1
            } else {
                self.count
            }
        } else {
            0
        };
        let stop = should_stop(family, &self.pipeline.query.parameters, self.i, text.as_str(), run);
        let generated_text = if stop {
            let mut all = self.all_tokens.clone();
            all.push(next_token);
            match decode_tokens(&self.pipeline.tokenizer, &all, true) {
                Ok(full) => Some(full),
                Err(_) => {
                    return Err(EngineError::TokenizerError);
                },
            }
        } else {
            None
        };
        self.all_tokens.push(next_token);
        self.count = run;
        self.tokens = vec![next_token];
        assert(self.tokens@ =~= seq![next_token]);
        self.i = self.all_tokens.len();
        self.index_pos = next_pos;
        self.last = stop;
        let generation = Generation {
            token: Token { id: next_token as usize, logprob_bits: 0, text, special: false },
            generated_text,
        };
        proof {
            assert(Self::stepped(*old(self), *self, next_token, generation));
        }
        Ok(generation)
    }

    /// Whether two states hold the same model, in the same state.
    pub open spec fn same_engine(&self, other: PipelineIter) -> bool {
        self.spec_engine() == other.spec_engine()
    }

    /// A step whose fragment starts with a stop string is the last one: it
    /// ends the sequence at that very step and carries the tokenizer's text
    /// of all generated tokens, this step's token included.
    pub proof fn lemma_stop_string_halts(
        before: PipelineIter,
        after: PipelineIter,
        token: u32,
        g: Generation,
    )
        requires
            Self::stepped(before, after, token, g),
            hits_stop(before.stop_strings(), g.token.text@),
        ensures
            after.finished(),
            g.generated_text matches Some(full) && decoded_text(
                before.spec_tokenizer(),
                before.history().push(token),
                true,
            ) == Some(full@),
    {
    }

    /// The part of a step that follows the model: draws the next token from
    /// `logits`, the model's answer to the pending tokens, and concludes the
    /// step.  The sampler's draw decides: without a draw the step fails;
    /// with one, the step is that of the token drawn, and it ends well
    /// exactly when the tokenizer lets it.  At temperature zero the token is
    /// the index of the largest logit.  An error leaves the tokens and the
    /// counters as they were.
    pub fn step_with(&mut self, logits: &Tensor, next_pos: usize) -> (r: Result<
        Generation,
        EngineError,
    >)
        requires
            old(self).engine_wf(),
            old(self).sampler().wf(),
            !old(self).finished(),
            old(self).newline_run() <= NEWLINE_RUN,
            old(self).history().len() == old(self).steps(),
            old(self).steps() <= old(self).max_new_tokens(),
            next_pos == old(self).position() + old(self).pending().len(),
            old(self).holds_positions(next_pos as nat),
            tensor_dims(*logits).len() == 1,
            tensor_dims(*logits)[0] >= 1,
        ensures
            final(self).same_request(*old(self)),
            final(self).engine_wf(),
            final(self).sampler().wf(),
            final(self).sampler().seed() == old(self).sampler().seed(),
            final(self).sampler().temperature_bits() == old(self).sampler().temperature_bits(),
            final(self).sampler().top_p_bits() == old(self).sampler().top_p_bits(),
            final(self).sampler().seen() == old(self).sampler().seen().push(*logits),
            match Sampler::draw(
                old(self).sampler().seed(),
                old(self).sampler().temperature_bits(),
                old(self).sampler().top_p_bits(),
                old(self).sampler().seen().push(*logits),
            ) {
                Some(token) => token < tensor_dims(*logits)[0] && (if Self::succeeds(
                    *old(self),
                    token,
                ) {
                    r matches Ok(g) && Self::stepped(*old(self), *final(self), token, g) && final(self).wf()
                } else {
                    r == Err::<Generation, EngineError>(EngineError::TokenizerError) && final(self).same_progress(*old(self))
                }),
                None => r == Err::<Generation, EngineError>(EngineError::NumericBackendError)
                    && final(self).same_progress(*old(self)),
            },
            old(self).sampler().greedy() && tensor_is_f32(*logits) ==> Sampler::draw(
                old(self).sampler().seed(),
                old(self).sampler().temperature_bits(),
                old(self).sampler().top_p_bits(),
                old(self).sampler().seen().push(*logits),
            ) is Some,
    {
        let next_token = match self.pipeline.logits_processor.sample(logits) {
            Ok(token) => token,
            Err(e) => {
                return Err(e);
            },
        };
        let ghost drawn = *self;
        let r = self.conclude(next_token, next_pos);
        proof {
            assert(Self::succeeds(drawn, next_token) == Self::succeeds(*old(self), next_token));
            if r is Ok {
                assert(Self::stepped(*old(self), *self, next_token, r.unwrap()));
            }
        }
        r
    }

    /// One step: runs the model on the pending tokens, samples the next
    /// token, and decides whether it is the last.
    ///
    /// Without pending tokens there is nothing to run, and pending tokens
    /// that do not fit overflow the context: both fail at once and change
    /// nothing.  Otherwise the model and the sampler decide whether a token
    /// is drawn, and the tokenizer whether the step that drew it ends well.
    /// A step that ends well is the step of the token that the sampler drew
    /// from the model's logits; an error of the tokenizer tells that it
    /// refused a token that was drawn.  Whatever the error, the tokens, the
    /// counters and the end of the sequence stay as they were.
    fn inner_next(&mut self) -> (r: Result<Generation, EngineError>)
        requires
            old(self).wf(),
            !old(self).finished(),
        ensures
            final(self).engine_wf(),
            final(self).sampler().wf(),
            old(self).leaves_window() ==> r == Err::<Generation, EngineError>(
                EngineError::ContextOverflow,
            ) && *final(self) == *old(self),
            old(self).pending().len() == 0 ==> r == Err::<Generation, EngineError>(
                EngineError::NumericBackendError,
            ) && *final(self) == *old(self),
            final(self).same_request(*old(self)),
            old(self).engine_owes() ==> exists|logits: Tensor|
                final(self).sampler().seen() == #[trigger] old(self).sampler().seen().push(logits)
                    && (match Sampler::draw(
                    old(self).sampler().seed(),
                    old(self).sampler().temperature_bits(),
                    old(self).sampler().top_p_bits(),
                    old(self).sampler().seen().push(logits),
                ) {
                    Some(token) => if Self::succeeds(*old(self), token) {
                        r matches Ok(g) && Self::stepped(*old(self), *final(self), token, g)
                    } else {
                        r == Err::<Generation, EngineError>(EngineError::TokenizerError)
                    },
                    None => r == Err::<Generation, EngineError>(EngineError::NumericBackendError),
                }),
            match r {
                Ok(g) => final(self).wf() && exists|logits: Tensor, token: u32|
                    Self::drew(*old(self), *final(self), logits, token) && Self::succeeds(
                        *old(self),
                        token,
                    ) && Self::stepped(*old(self), *final(self), token, g) && (token < old(self).vocabulary()),
                Err(e) => {
                    &&& final(self).same_progress(*old(self))
                    &&& e == EngineError::ContextOverflow <==> old(self).leaves_window()
                    &&& e == EngineError::TokenizerError ==> exists|token: u32|
                        !Self::succeeds(*old(self), token) && (token < old(self).vocabulary())
                    &&& e == EngineError::ContextOverflow || e == EngineError::TokenizerError || e
                        == EngineError::NumericBackendError
                },
            },
    {
        let next_pos = match self.index_pos.checked_add(self.tokens.len()) {
            Some(p) => p,
            None => {
                return Err(EngineError::ContextOverflow);
            },
        };
        proof {
            self.pipeline.engine.lemma_overflows(self.index_pos, self.tokens@.len());
        }
        let logits = match self.pipeline.engine.forward(&self.tokens, self.index_pos) {
            Ok(logits) => logits,
            Err(e) => {
                return Err(e);
            },
        };
        let ghost ran = *self;
        let r = self.step_with(&logits, next_pos);
        proof {
            let drawn = Sampler::draw(
                ran.sampler().seed(),
                ran.sampler().temperature_bits(),
                ran.sampler().top_p_bits(),
                ran.sampler().seen().push(logits),
            );
            if drawn is Some {
                let token = drawn.unwrap();
                assert(Self::succeeds(ran, token) == Self::succeeds(*old(self), token));
                if r is Ok {
                    assert(Self::stepped(*old(self), *self, token, r.unwrap()));
                    assert(Self::drew(*old(self), *self, logits, token));
                }
            }
        }
        r
    }

    /// The next item of the sequence.  A finished sequence yields nothing
    /// and stays as it is.  The request stays what it was.  Where the model
    /// owes its logits, the sampler's draw from them decides the item: the
    /// step of the token drawn where the tokenizer lets it end well, an
    /// error of the tokenizer where it does not, an error of the backend
    /// where nothing is drawn.  A running one takes a step: it yields the token
    /// that the sampler drew from the model's logits, and with it the whole
    /// generated text exactly when the stop predicate holds, which ends the
    /// sequence; or it yields an error, which ends the sequence too and
    /// leaves the tokens and the counters as they were.  Pending tokens that
    /// do not fit are the one cause of an overflow of the context, and an
    /// empty prompt is refused.
    pub fn next(&mut self) -> (r: Option<Result<Generation, EngineError>>)
        requires
            old(self).wf(),
        ensures
            final(self).wf(),
            old(self).finished() ==> r is None && *final(self) == *old(self),
            !old(self).finished() && old(self).pending().len() == 0 ==> r == Some(
                Err::<Generation, EngineError>(EngineError::NumericBackendError),
            ),
            !old(self).finished() && old(self).leaves_window() ==> r == Some(
                Err::<Generation, EngineError>(EngineError::ContextOverflow),
            ),
            final(self).same_request(*old(self)),
            !old(self).finished() && old(self).engine_owes() ==> exists|logits: Tensor|
                final(self).sampler().seen() == #[trigger] old(self).sampler().seen().push(logits)
                    && (match Sampler::draw(
                    old(self).sampler().seed(),
                    old(self).sampler().temperature_bits(),
                    old(self).sampler().top_p_bits(),
                    old(self).sampler().seen().push(logits),
                ) {
                    Some(token) => if Self::succeeds(*old(self), token) {
                        r matches Some(Ok(g)) && Self::stepped(*old(self), *final(self), token, g)
                    } else {
                        r == Some(Err::<Generation, EngineError>(EngineError::TokenizerError))
                    },
                    None => r == Some(
                        Err::<Generation, EngineError>(EngineError::NumericBackendError),
                    ),
                }),
            !old(self).finished() ==> match r {
                Some(Ok(g)) => exists|logits: Tensor, token: u32|
                    Self::drew(*old(self), *final(self), logits, token) && Self::succeeds(
                        *old(self),
                        token,
                    ) && Self::stepped(*old(self), *final(self), token, g) && (token < old(self).vocabulary()),
                Some(Err(e)) => {
                    &&& final(self).finished()
                    &&& final(self).steps() == old(self).steps()
                    &&& final(self).history() == old(self).history()
                    &&& final(self).pending() == old(self).pending()
                    &&& final(self).position() == old(self).position()
                    &&& e == EngineError::ContextOverflow <==> old(self).leaves_window()
                    &&& old(self).pending().len() == 0 ==> e == EngineError::NumericBackendError
                    &&& e == EngineError::TokenizerError ==> exists|token: u32|
                        !Self::succeeds(*old(self), token)
                    &&& e == EngineError::ContextOverflow || e == EngineError::TokenizerError || e
                        == EngineError::NumericBackendError
                },
                None => false,
            },
    {
        if self.last {
            None
        } else {
            let generation = self.inner_next();
            if generation.is_err() {
                self.last = true;
            }
            Some(generation)
        }
    }
}

} // verus!
