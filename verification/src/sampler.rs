//! The sampler: `candle_transformers::generation::LogitsProcessor`, which
//! turns a vector of logits into a token id.

use vstd::prelude::*;
use candle_core::Device;
use candle_core::Tensor;
use candle_transformers::generation::LogitsProcessor;
use crate::error::EngineError;
use crate::tensor::tensor_dims;
use crate::tensor::tensor_is_f32;

verus! {

#[verifier::external_type_specification]
#[verifier::external_body]
pub struct ExLogitsProcessor(LogitsProcessor);

/// The seed, the temperature and the nucleus mass that a sampler was made
/// with, the two floats as the bit patterns of 32-bit floats.
pub uninterp spec fn sampler_made_with(sampler: LogitsProcessor) -> (u64, u32, u32);

/// The logits that a sampler has been given since it was made, in turn.
pub uninterp spec fn sampler_past(sampler: LogitsProcessor) -> Seq<Tensor>;

/// The token that a sampler made with the given seed, temperature and
/// nucleus mass returns for the last of the logits in `seen`, after it was
/// given the ones before in turn; `None` where it fails.  The sampler's
/// random generator is seeded, so the draw depends on nothing else.
pub uninterp spec fn drawn_token(
    seed: u64,
    temperature_bits: u32,
    top_p_bits: u32,
    seen: Seq<Tensor>,
) -> Option<u32>;

/// The index of the largest element of a one-dimensional tensor, as
/// `Tensor::argmax` picks it; `None` where the backend refuses the tensor.
pub uninterp spec fn greedy_choice(logits: Tensor) -> Option<u32>;

/// `LogitsProcessor::new`: a sampler with the given seed, temperature and
/// nucleus mass, which has seen no logits.  The two floats are handed over
/// as the bit patterns of 32-bit floats, which `Tensor::from_raw_buffer`,
/// `Tensor::to_dtype` and `Tensor::to_scalar` widen to the 64-bit floats
/// that the sampler takes; none of these calls fails.
#[verifier::external_body]
pub(crate) fn new_sampler(seed: u64, temperature_bits: u32, top_p_bits: u32) -> (r: Result<
    LogitsProcessor,
    candle_core::Error,
>)
    ensures
        r is Ok,
        r matches Ok(s) ==> sampler_made_with(s) == (seed, temperature_bits, top_p_bits)
            && sampler_past(s) == Seq::<Tensor>::empty(),
{
    let temperature = Tensor::from_raw_buffer(
        &temperature_bits.to_ne_bytes(),
        candle_core::DType::F32,
        &[],
        &Device::Cpu,
    )?.to_dtype(candle_core::DType::F64)?.to_scalar()?;
    let top_p = Tensor::from_raw_buffer(
        &top_p_bits.to_ne_bytes(),
        candle_core::DType::F32,
        &[],
        &Device::Cpu,
    )?.to_dtype(candle_core::DType::F64)?.to_scalar()?;
    Ok(LogitsProcessor::new(seed, Some(temperature), Some(top_p)))
}

/// `LogitsProcessor::sample`: draws a token from a one-dimensional tensor of
/// logits.  The token is an index into the logits.  The draw is the one that
/// the sampler's seed and parameters and the logits it has seen determine.
#[verifier::external_body]
pub(crate) fn sample(sampler: &mut LogitsProcessor, logits: &Tensor) -> (r: Result<
    u32,
    candle_core::Error,
>)
    requires
        tensor_dims(*logits).len() == 1,
        tensor_dims(*logits)[0] >= 1,
    ensures
        sampler_made_with(*final(sampler)) == sampler_made_with(*old(sampler)),
        sampler_past(*final(sampler)) == sampler_past(*old(sampler)).push(*logits),
        match r {
            Ok(token) => token < tensor_dims(*logits)[0] && drawn_token(
                sampler_made_with(*old(sampler)).0,
                sampler_made_with(*old(sampler)).1,
                sampler_made_with(*old(sampler)).2,
                sampler_past(*final(sampler)),
            ) == Some(token),
            Err(_) => drawn_token(
                sampler_made_with(*old(sampler)).0,
                sampler_made_with(*old(sampler)).1,
                sampler_made_with(*old(sampler)).2,
                sampler_past(*final(sampler)),
            ) is None,
        },
{
    sampler.sample(logits)
}

/// `Tensor::to_dtype`, `Tensor::argmax` and `Tensor::to_scalar`: the index of
/// the largest of the logits, taken as 32-bit floats.  It depends on the
/// logits alone, and logits that are 32-bit floats are accepted.
#[verifier::external_body]
pub(crate) fn argmax(logits: &Tensor) -> (r: Result<u32, candle_core::Error>)
    requires
        tensor_dims(*logits).len() == 1,
        tensor_dims(*logits)[0] >= 1,
    ensures
        match r {
            Ok(token) => token < tensor_dims(*logits)[0] && greedy_choice(*logits) == Some(token),
            Err(_) => greedy_choice(*logits) is None,
        },
        tensor_is_f32(*logits) ==> r is Ok,
{
    logits.to_dtype(candle_core::DType::F32)?.argmax(candle_core::D::Minus1)?.to_scalar()
}

/// Whether a bit pattern is that of the 32-bit float zero, of either sign.
pub open spec fn is_zero_bits(bits: u32) -> bool {
    bits == 0 || bits == 0x8000_0000
}

/// The sampler of a request: what it was made with, the backend's sampler
/// with its random state, and the logits seen so far.
pub struct Sampler {
    seed: u64,
    temperature_bits: u32,
    top_p_bits: u32,
    inner: LogitsProcessor,
    seen: Ghost<Seq<Tensor>>,
}

impl Sampler {
    /// The seed of the random generator.
    pub closed spec fn seed(&self) -> u64 {
        self.seed
    }

    /// The temperature, as the bit pattern of a 32-bit float.
    pub closed spec fn temperature_bits(&self) -> u32 {
        self.temperature_bits
    }

    /// The nucleus mass, as the bit pattern of a 32-bit float.
    pub closed spec fn top_p_bits(&self) -> u32 {
        self.top_p_bits
    }

    /// The logits that the sampler has been given, in turn.
    pub closed spec fn seen(&self) -> Seq<Tensor> {
        self.seen@
    }

    /// Whether the sampler was made with temperature zero, and so takes the
    /// most likely token.
    pub open spec fn greedy(&self) -> bool {
        is_zero_bits(self.temperature_bits())
    }

    /// The invariant of a sampler: unless it is greedy, the backend's
    /// sampler was made with its parameters and has seen what it has seen.
    pub closed spec fn wf(&self) -> bool {
        !is_zero_bits(self.temperature_bits) ==> sampler_made_with(self.inner) == (
            self.seed,
            self.temperature_bits,
            self.top_p_bits,
        ) && sampler_past(self.inner) == self.seen@
    }

    /// The token that a sampler made with the given seed, temperature and
    /// nucleus mass draws for the last of the logits in `seen`: at
    /// temperature zero the index of the largest logit, whatever the seed,
    /// the nucleus mass and the logits before; else the draw that the seed,
    /// the parameters and all the logits seen determine.
    pub open spec fn draw(seed: u64, temperature_bits: u32, top_p_bits: u32, seen: Seq<Tensor>) -> Option<
        u32,
    >
        recommends
            seen.len() > 0,
    {
        if is_zero_bits(temperature_bits) {
            greedy_choice(seen.last())
        } else {
            drawn_token(seed, temperature_bits, top_p_bits, seen)
        }
    }

    /// Two samplers made with one seed, one temperature and one nucleus mass
    /// that have seen the same logits draw the same token from the same
    /// logits: a fixed seed gives one sequence of tokens.
    pub proof fn lemma_same_seed_same_draws(a: Sampler, b: Sampler, logits: Tensor)
        requires
            a.seed() == b.seed(),
            a.temperature_bits() == b.temperature_bits(),
            a.top_p_bits() == b.top_p_bits(),
            a.seen() == b.seen(),
        ensures
            Self::draw(a.seed(), a.temperature_bits(), a.top_p_bits(), a.seen().push(logits))
                == Self::draw(b.seed(), b.temperature_bits(), b.top_p_bits(), b.seen().push(logits)),
    {
    }

    /// At temperature zero the draw is the index of the largest logit:
    /// identical logits always give the identical token.
    pub proof fn lemma_greedy_draw(seed: u64, temperature_bits: u32, top_p_bits: u32, seen: Seq<Tensor>)
        requires
            is_zero_bits(temperature_bits),
            seen.len() > 0,
        ensures
            Self::draw(seed, temperature_bits, top_p_bits, seen) == greedy_choice(seen.last()),
    {
    }

    /// A sampler with the given seed, temperature and nucleus mass, which
    /// has seen no logits; the two floats are given as the bit patterns of
    /// 32-bit floats.
    pub fn new(seed: u64, temperature_bits: u32, top_p_bits: u32) -> (r: Result<
        Sampler,
        EngineError,
    >)
        ensures
            r matches Ok(s) && s.wf() && s.seed() == seed && s.temperature_bits()
                == temperature_bits && s.top_p_bits() == top_p_bits && s.seen() == Seq::<
                Tensor,
            >::empty(),
    {
        let inner = new_sampler(seed, temperature_bits, top_p_bits).unwrap();
        Ok(Sampler { seed, temperature_bits, top_p_bits, inner, seen: Ghost(Seq::empty()) })
    }

    /// Whether the sampler takes the most likely token.
    pub fn is_greedy(&self) -> (r: bool)
        ensures
            r == self.greedy(),
    {
        self.temperature_bits == 0 || self.temperature_bits == 0x8000_0000
    }

    /// Draws the next token from the logits over a vocabulary.  The token is
    /// an index into the logits, and it is the draw of the sampler's seed
    /// and parameters on the logits seen so far.  At temperature zero logits
    /// of 32-bit floats always give a token.
    pub fn sample(&mut self, logits: &Tensor) -> (r: Result<u32, EngineError>)
        requires
            old(self).wf(),
            tensor_dims(*logits).len() == 1,
            tensor_dims(*logits)[0] >= 1,
        ensures
            final(self).wf(),
            final(self).seed() == old(self).seed(),
            final(self).temperature_bits() == old(self).temperature_bits(),
            final(self).top_p_bits() == old(self).top_p_bits(),
            final(self).seen() == old(self).seen().push(*logits),
            match r {
                Ok(token) => token < tensor_dims(*logits)[0] && Self::draw(
                    old(self).seed(),
                    old(self).temperature_bits(),
                    old(self).top_p_bits(),
                    final(self).seen(),
                ) == Some(token),
                Err(e) => e == EngineError::NumericBackendError && Self::draw(
                    old(self).seed(),
                    old(self).temperature_bits(),
                    old(self).top_p_bits(),
                    final(self).seen(),
                ) is None,
            },
            old(self).greedy() && tensor_is_f32(*logits) ==> r is Ok,
    {
        let drawn = if self.temperature_bits == 0 || self.temperature_bits == 0x8000_0000 {
            argmax(logits)
        } else {
            sample(&mut self.inner, logits)
        };
        proof {
            self.seen@ = self.seen@.push(*logits);
        }
        match drawn {
            Ok(t) => Ok(t),
            Err(_) => Err(EngineError::NumericBackendError),
        }
    }
}

} // verus!
