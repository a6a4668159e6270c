//! The state that a generation session carries between forward passes: the
//! keys and values of every layer, the causal masks already built, and the
//! rotary tables.

use vstd::prelude::*;
use vstd::arithmetic::div_mod::lemma_fundamental_div_mod_converse;
use std::collections::HashMap;
use candle_core::Tensor;
use crate::config::Config;
use crate::error::EngineError;
use crate::shape::dims1;
use crate::shape::dims2;
use crate::shape::dims3;
use crate::shape::lemma_mul_le;
use crate::shape::lemma_numel_1;
use crate::shape::lemma_numel_2;
use crate::shape::lemma_numel_3;
use crate::tensor::broadcast_as;
use crate::tensor::broadcasts_to;
use crate::tensor::cos;
use crate::tensor::dense;
use crate::tensor::is_f32;
use crate::tensor::tensor_is_f32;
use crate::tensor::tensor_is_u8;
use crate::tensor::div_same;
use crate::tensor::matmul;
use crate::tensor::pow_same;
use crate::tensor::recip;
use crate::tensor::reshape;
use crate::tensor::shape_fits;
use crate::tensor::shape_of;
use crate::tensor::share;
use crate::tensor::sin;
use crate::tensor::square_u8_tensor;
use crate::tensor::tensor_dims;
use crate::tensor::tensor_le_bytes;
use crate::tensor::to_float;
use crate::tensor::u32_tensor;
use crate::weight_map::TensorName;
use crate::weight_map::WeightMap;

verus! {

broadcast use vstd::std_specs::hash::group_hash_axioms;

/// The causal mask for `t` positions, row by row: entry `(i, j)` is one
/// exactly when `j > i`, that is when position `i` may not attend to
/// position `j`.
pub open spec fn causal_mask(t: nat) -> Seq<u8> {
    Seq::new(
        t * t,
        |p: int|
            if p % (t as int) > p / (t as int) {
                1u8
            } else {
                0u8
            },
    )
}

/// Builds the causal mask for `t` positions.
pub fn causal_mask_bytes(t: usize) -> (mask: Vec<u8>)
    requires
        t * t <= usize::MAX,
    ensures
        mask@ == causal_mask(t as nat),
{
    let mut mask: Vec<u8> = Vec::new();
    let mut i: usize = 0;
    while i < t
        invariant
            0 <= i <= t,
            t * t <= usize::MAX,
            mask@.len() == i * t,
            forall|p: int|
                0 <= p < mask@.len() ==> #[trigger] mask@[p] == (if p % (t as int) > p / (t as int) {
                    1u8
                } else {
                    0u8
                }),
        decreases t - i,
    {
        let mut j: usize = 0;
        while j < t
            invariant
                0 <= j <= t,
                0 <= i < t,
                t * t <= usize::MAX,
                mask@.len() == i * t + j,
                forall|p: int|
                    0 <= p < mask@.len() ==> #[trigger] mask@[p] == (if p % (t as int) > p / (
                    t as int) {
                        1u8
                    } else {
                        0u8
                    }),
            decreases t - j,
        {
            proof {
                lemma_fundamental_div_mod_converse(i * t + j, t as int, i as int, j as int);
            }
            mask.push(if j > i {
                1u8
            } else {
                0u8
            });
            j += 1;
        }
        proof {
            assert(i * t + t == (i + 1) * t) by (nonlinear_arith);
        }
        i += 1;
    }
    assert(mask@ =~= causal_mask(t as nat));
    mask
}

/// What a layer's entry must look like under a configuration: nothing yet,
/// or keys and values of one shape, `[1, len, n_kv_heads, head_size]`, with
/// `len` between one and the context length, both 32-bit floats in row-major
/// order.
pub open spec fn kv_entry_ok(c: Config, e: Option<(Tensor, Tensor)>) -> bool {
    match e {
        None => true,
        Some((k, v)) => {
            &&& tensor_dims(k).len() == 4
            &&& tensor_dims(k) == seq![
                1usize,
                tensor_dims(k)[1],
                c.n_kv_heads,
                (c.dim / c.n_heads) as usize,
            ]
            &&& tensor_dims(v) == tensor_dims(k)
            &&& 1 <= tensor_dims(k)[1] <= c.seq_len
            &&& dense(k)
            &&& dense(v)
        },
    }
}

/// Whether an entry keeps what an earlier entry held: where that one held
/// keys and values, this one holds keys and values that begin with the same
/// bytes.
pub open spec fn kv_entry_extends(before: Option<(Tensor, Tensor)>, after: Option<(Tensor, Tensor)>) -> bool {
    match before {
        None => true,
        Some((k0, v0)) => after matches Some((k1, v1)) && tensor_le_bytes(k0).is_prefix_of(
            tensor_le_bytes(k1),
        ) && tensor_le_bytes(v0).is_prefix_of(tensor_le_bytes(v1)),
    }
}

/// The number of positions that an entry holds.
pub open spec fn kv_entry_len(e: Option<(Tensor, Tensor)>) -> nat {
    match e {
        None => 0,
        Some((k, _)) => tensor_dims(k)[1] as nat,
    }
}

/// What a memoised mask must look like: the causal mask for its key.
pub open spec fn mask_ok(t: usize, m: Tensor) -> bool {
    &&& t * t <= usize::MAX
    &&& tensor_dims(m) == seq![t, t]
    &&& tensor_le_bytes(m) == causal_mask(t as nat)
    &&& tensor_is_u8(m)
}

/// The table that a weight map holds under a name, if it has the shape of
/// a rotary table.
pub open spec fn stored_table(weights: WeightMap, c: Config, name: TensorName) -> Option<Tensor> {
    match weights.spec_get(name) {
        Some(t) => if tensor_dims(t) == rotary_shape(c) {
            Some(t)
        } else {
            None
        },
        None => None,
    }
}

/// Whether a weight map holds, under a name, a table of the shape of a
/// rotary table whose elements are no 32-bit floats.
pub open spec fn bad_table(weights: WeightMap, c: Config, name: TensorName) -> bool {
    stored_table(weights, c, name) matches Some(t) && !tensor_is_f32(t)
}

/// The shape of a rotary table: one row per position, one column per pair
/// of coordinates of a head.
pub open spec fn rotary_shape(c: Config) -> Seq<usize> {
    seq![c.seq_len, (c.dim / c.n_heads / 2) as usize]
}

/// The session state of one generation request.
pub struct Cache {
    masks: HashMap<usize, Tensor>,
    use_kv_cache: bool,
    kvs: Vec<Option<(Tensor, Tensor)>>,
    cos: Tensor,
    sin: Tensor,
    cfg: Config,
}

impl Cache {
    /// The configuration that the cache was made for.
    pub closed spec fn config(&self) -> Config {
        self.cfg
    }

    /// Whether keys and values are kept between forward passes.
    pub closed spec fn caching(&self) -> bool {
        self.use_kv_cache
    }

    /// The keys and values of a layer, if any were stored.
    pub closed spec fn entry(&self, layer: int) -> Option<(Tensor, Tensor)> {
        self.kvs@[layer]
    }

    /// The number of positions stored for a layer.
    pub open spec fn layer_len(&self, layer: int) -> nat {
        kv_entry_len(self.entry(layer))
    }

    /// The masks built so far, by number of positions.
    pub closed spec fn built_masks(&self) -> Map<usize, Tensor> {
        self.masks@
    }

    /// The cosine table, of shape `[seq_len, head_size / 2, 1]`.
    pub closed spec fn cos_table(&self) -> Tensor {
        self.cos
    }

    /// The sine table, of shape `[seq_len, head_size / 2, 1]`.
    pub closed spec fn sin_table(&self) -> Tensor {
        self.sin
    }

    /// The invariant of the cache.
    pub closed spec fn wf(&self) -> bool {
        &&& self.cfg.wf()
        &&& self.kvs@.len() == self.cfg.n_layers
        &&& tensor_dims(self.cos) == rotary_shape(self.cfg).push(1)
        &&& tensor_dims(self.sin) == rotary_shape(self.cfg).push(1)
        &&& tensor_is_f32(self.cos)
        &&& tensor_is_f32(self.sin)
        &&& forall|i: int| 0 <= i < self.kvs@.len() ==> kv_entry_ok(self.cfg, #[trigger] self.kvs@[i])
        &&& !self.use_kv_cache ==> forall|i: int|
            0 <= i < self.kvs@.len() ==> (#[trigger] self.kvs@[i]) is None
        &&& forall|t: usize| #[trigger]
            self.masks@.contains_key(t) ==> mask_ok(t, self.masks@[t])
    }

    /// What the invariant says of the parts that other modules read.
    pub proof fn lemma_wf(&self)
        requires
            self.wf(),
        ensures
            self.config().wf(),
            tensor_dims(self.cos_table()) == rotary_shape(self.config()).push(1),
            tensor_dims(self.sin_table()) == rotary_shape(self.config()).push(1),
            tensor_is_f32(self.cos_table()),
            tensor_is_f32(self.sin_table()),
            forall|i: int|
                0 <= i < self.config().n_layers ==> kv_entry_ok(
                    self.config(),
                    #[trigger] self.entry(i),
                ),
            forall|i: int|
                0 <= i < self.config().n_layers ==> #[trigger] self.layer_len(i)
                    <= self.config().seq_len,
            !self.caching() ==> forall|i: int|
                0 <= i < self.config().n_layers ==> #[trigger] self.layer_len(i) == 0,
    {
        assert forall|i: int| 0 <= i < self.config().n_layers implies kv_entry_ok(
            self.config(),
            #[trigger] self.entry(i),
        ) && self.layer_len(i) <= self.config().seq_len by {
            assert(kv_entry_ok(self.cfg, self.kvs@[i]));
        }
        if !self.caching() {
            assert forall|i: int| 0 <= i < self.config().n_layers implies #[trigger] self.layer_len(
                i,
            ) == 0 by {
                assert(self.kvs@[i] is None);
            }
        }
    }

    /// Whether keys and values are kept between forward passes.
    pub fn use_kv_cache(&self) -> (r: bool)
        ensures
            r == self.caching(),
    {
        self.use_kv_cache
    }

    /// The configuration that the cache was made for.
    pub fn get_config(&self) -> (c: Config)
        ensures
            c == self.config(),
    {
        self.cfg
    }

    /// A handle on the cosine table.
    pub fn cos_handle(&self) -> (t: Tensor)
        ensures
            t == self.cos_table(),
    {
        share(&self.cos)
    }

    /// A handle on the sine table.
    pub fn sin_handle(&self) -> (t: Tensor)
        ensures
            t == self.sin_table(),
    {
        share(&self.sin)
    }

    /// A fresh cache for one request.  The rotary tables are those of the
    /// weight map where it holds tables of the right shape, which must be
    /// 32-bit floats, and are computed otherwise.
    pub fn new(use_kv_cache: bool, cfg: &Config, weights: &WeightMap) -> (r: Result<
        Cache,
        EngineError,
    >)
        ensures
            !cfg.wf() ==> (r matches Err(e) && e == EngineError::ArchitectureMismatch),
            cfg.wf() && (bad_table(*weights, *cfg, TensorName::RotaryReal) || bad_table(
                *weights,
                *cfg,
                TensorName::RotaryImag,
            )) ==> (r matches Err(e) && e == EngineError::UnsupportedDtype),
            cfg.wf() && !bad_table(*weights, *cfg, TensorName::RotaryReal) && !bad_table(
                *weights,
                *cfg,
                TensorName::RotaryImag,
            ) ==> (r matches Ok(c) && {
                &&& c.wf()
                &&& c.config() == *cfg
                &&& c.caching() == use_kv_cache
                &&& c.built_masks() == Map::<usize, Tensor>::empty()
                &&& forall|i: int| 0 <= i < cfg.n_layers ==> (#[trigger] c.entry(i)) is None
                &&& stored_table(*weights, *cfg, TensorName::RotaryReal) matches Some(t)
                    ==> tensor_le_bytes(c.cos_table()) == tensor_le_bytes(t)
                &&& stored_table(*weights, *cfg, TensorName::RotaryImag) matches Some(t)
                    ==> tensor_le_bytes(c.sin_table()) == tensor_le_bytes(t)
            }),
    {
        if !cfg.validate() {
            return Err(EngineError::ArchitectureMismatch);
        }
        let half = cfg.head_size() / 2;
        proof {
            cfg.lemma_heads();
            lemma_mul_le(cfg.seq_len as nat, half as nat, cfg.seq_len as nat, cfg.dim as nat);
            lemma_numel_2(cfg.seq_len, half);
            lemma_numel_3(cfg.seq_len, half, 1);
            assert(half * 1 == half) by (nonlinear_arith);
        }
        let flat = dims2(cfg.seq_len, half);
        assert(flat@ =~= rotary_shape(*cfg));
        let stored_cos = weights.get_shaped(TensorName::RotaryReal, &flat);
        let stored_sin = weights.get_shaped(TensorName::RotaryImag, &flat);
        let cos_bad = match &stored_cos {
            Some(t) => !is_f32(t),
            None => false,
        };
        let sin_bad = match &stored_sin {
            Some(t) => !is_f32(t),
            None => false,
        };
        if cos_bad || sin_bad {
            return Err(EngineError::UnsupportedDtype);
        }
        let cos_flat = match stored_cos {
            Some(t) => t,
            None => rotary_table(cfg, true),
        };
        let sin_flat = match stored_sin {
            Some(t) => t,
            None => rotary_table(cfg, false),
        };
        let column = dims3(cfg.seq_len, half, 1);
        assert(column@ =~= rotary_shape(*cfg).push(1));
        let cos = reshape(&cos_flat, column.as_slice()).unwrap();
        let sin = reshape(&sin_flat, column.as_slice()).unwrap();
        let mut kvs: Vec<Option<(Tensor, Tensor)>> = Vec::new();
        let mut i: usize = 0;
        while i < cfg.n_layers
            invariant
                0 <= i <= cfg.n_layers,
                kvs@.len() == i,
                forall|j: int| 0 <= j < i ==> (#[trigger] kvs@[j]) is None,
            decreases cfg.n_layers - i,
        {
            kvs.push(None);
            i += 1;
        }
        let c = Cache { masks: HashMap::new(), use_kv_cache, kvs, cos, sin, cfg: *cfg };
        Ok(c)
    }

    /// A handle on the keys and values stored for a layer.
    pub fn get(&self, layer: usize) -> (r: Option<(Tensor, Tensor)>)
        requires
            self.wf(),
            layer < self.config().n_layers,
        ensures
            r == self.entry(layer as int),
    {
        match &self.kvs[layer] {
            None => None,
            Some((k, v)) => Some((share(k), share(v))),
        }
    }

    /// Stores the keys and values of a layer in place of what was there.
    pub fn put(&mut self, layer: usize, k: Tensor, v: Tensor)
        requires
            old(self).wf(),
            old(self).caching(),
            layer < old(self).config().n_layers,
            kv_entry_ok(old(self).config(), Some((k, v))),
        ensures
            final(self).wf(),
            final(self).config() == old(self).config(),
            final(self).caching() == old(self).caching(),
            final(self).built_masks() == old(self).built_masks(),
            final(self).cos_table() == old(self).cos_table(),
            final(self).sin_table() == old(self).sin_table(),
            final(self).entry(layer as int) == Some((k, v)),
            forall|i: int|
                0 <= i < old(self).config().n_layers && i != layer ==> #[trigger] final(self).entry(
                    i,
                ) == old(self).entry(i),
    {
        self.kvs.set(layer, Some((k, v)));
    }

    /// Forgets the keys and values of every layer, so that the cache can
    /// serve another sequence.  Masks and rotary tables are kept.
    pub fn reset(&mut self)
        requires
            old(self).wf(),
        ensures
            final(self).wf(),
            final(self).config() == old(self).config(),
            final(self).caching() == old(self).caching(),
            final(self).built_masks() == old(self).built_masks(),
            final(self).cos_table() == old(self).cos_table(),
            final(self).sin_table() == old(self).sin_table(),
            forall|i: int|
                0 <= i < old(self).config().n_layers ==> (#[trigger] final(self).entry(i)) is None,
    {
        let mut kvs: Vec<Option<(Tensor, Tensor)>> = Vec::new();
        let mut i: usize = 0;
        while i < self.cfg.n_layers
            invariant
                0 <= i <= self.cfg.n_layers,
                kvs@.len() == i,
                forall|j: int| 0 <= j < i ==> (#[trigger] kvs@[j]) is None,
            decreases self.cfg.n_layers - i,
        {
            kvs.push(None);
            i += 1;
        }
        self.kvs = kvs;
    }

    /// The largest number of positions stored for any layer.
    pub fn max_len(&self) -> (r: usize)
        requires
            self.wf(),
        ensures
            forall|i: int| 0 <= i < self.config().n_layers ==> #[trigger] self.layer_len(i) <= r,
            r <= self.config().seq_len,
            r == 0 || exists|i: int| 0 <= i < self.config().n_layers && self.layer_len(i) == r,
    {
        let mut best: usize = 0;
        let mut i: usize = 0;
        while i < self.kvs.len()
            invariant
                0 <= i <= self.kvs@.len(),
                self.wf(),
                forall|j: int| 0 <= j < i ==> #[trigger] self.layer_len(j) <= best,
                best <= self.cfg.seq_len,
                best == 0 || exists|j: int| 0 <= j < i && self.layer_len(j) == best,
            decreases self.kvs@.len() - i,
        {
            assert(kv_entry_ok(self.cfg, self.kvs@[i as int]));
            let len = match &self.kvs[i] {
                None => 0,
                Some((k, _)) => {
                    let d = shape_of(k);
                    d[1]
                },
            };
            assert(len == self.layer_len(i as int));
            if len > best {
                best = len;
            }
            i += 1;
        }
        best
    }

    /// The causal mask for `t` positions, built on first use and kept.
    pub fn mask(&mut self, t: usize) -> (r: Result<Tensor, EngineError>)
        requires
            old(self).wf(),
            t <= old(self).config().seq_len,
        ensures
            final(self).wf(),
            final(self).config() == old(self).config(),
            final(self).caching() == old(self).caching(),
            final(self).cos_table() == old(self).cos_table(),
            final(self).sin_table() == old(self).sin_table(),
            forall|i: int| #[trigger] final(self).entry(i) == old(self).entry(i),
            forall|s: usize| #[trigger]
                old(self).built_masks().contains_key(s) ==> final(self).built_masks().contains_key(
                    s,
                ) && final(self).built_masks()[s] == old(self).built_masks()[s],
            r matches Ok(m) && mask_ok(t, m) && final(self).built_masks().contains_key(t)
                && final(self).built_masks()[t] == m,
    {
        let found = match self.masks.get(&t) {
            Some(m) => Some(share(m)),
            None => None,
        };
        match found {
            Some(m) => Ok(m),
            None => {
                proof {
                    lemma_mul_le(
                        t as nat,
                        t as nat,
                        self.cfg.seq_len as nat,
                        self.cfg.seq_len as nat,
                    );
                    assert(self.cfg.seq_len * self.cfg.seq_len <= self.cfg.n_heads * (
                    self.cfg.seq_len * self.cfg.seq_len)) by (nonlinear_arith)
                        requires
                            self.cfg.n_heads >= 1,
                    ;
                }
                let bytes = causal_mask_bytes(t);
                let m = square_u8_tensor(bytes.as_slice(), t).unwrap();
                self.masks.insert(t, share(&m));
                Ok(m)
            },
        }
    }
}

/// Computes a rotary table: for position `p` and pair `i`, the cosine (or the
/// sine) of `p / 10000^(2 i / head_size)`.
fn rotary_table(cfg: &Config, cosine: bool) -> (t: Tensor)
    requires
        cfg.wf(),
    ensures
        tensor_dims(t) == rotary_shape(*cfg),
        tensor_is_f32(t),
{
    proof {
        cfg.lemma_heads();
    }
    let head = cfg.head_size();
    let half = head / 2;
    let mut evens: Vec<u32> = Vec::new();
    let mut i: usize = 0;
    while i < half
        invariant
            0 <= i <= half,
            half == head / 2,
            head <= u32::MAX,
            evens@.len() == i,
        decreases half - i,
    {
        evens.push((2 * i) as u32);
        i += 1;
    }
    let mut positions: Vec<u32> = Vec::new();
    let mut p: usize = 0;
    while p < cfg.seq_len
        invariant
            0 <= p <= cfg.seq_len,
            cfg.seq_len <= u32::MAX,
            positions@.len() == p,
        decreases cfg.seq_len - p,
    {
        positions.push(p as u32);
        p += 1;
    }
    proof {
        lemma_numel_1(half);
        lemma_numel_1(1);
        lemma_numel_1(cfg.seq_len);
        lemma_numel_2(cfg.seq_len, half);
        lemma_numel_2(1, half);
        lemma_numel_2(cfg.seq_len, 1);
        lemma_mul_le(cfg.seq_len as nat, half as nat, cfg.seq_len as nat, cfg.dim as nat);
        assert(1 * half == half) by (nonlinear_arith);
        assert(cfg.seq_len * 1 == cfg.seq_len) by (nonlinear_arith);
    }
    let row = dims1(half);
    let exponent = scaled_indices(&evens, head as u32, &row);
    let base = constant_row(10000, &row);
    let wide = dims2(1, half);
    let tall = dims2(cfg.seq_len, 1);
    let power = pow_same(&base, &exponent).unwrap();
    let theta = recip(&power).unwrap();
    let theta_row = reshape(&theta, wide.as_slice()).unwrap();
    let pos = u32_tensor(positions.as_slice()).unwrap();
    let pos_f = to_float(&pos).unwrap();
    let pos_col = reshape(&pos_f, tall.as_slice()).unwrap();
    proof {
        assert(tensor_dims(pos_col).update(1, half) =~= rotary_shape(*cfg));
        assert(tensor_dims(pos_col).take(0) =~= tensor_dims(theta_row).take(0));
    }
    let angles = matmul(&pos_col, &theta_row).unwrap();
    if cosine {
        cos(&angles).unwrap()
    } else {
        sin(&angles).unwrap()
    }
}

/// A row of floats: the given integers, each divided by `divisor`.
fn scaled_indices(values: &Vec<u32>, divisor: u32, row: &Vec<usize>) -> (t: Tensor)
    requires
        row@ == seq![values@.len() as usize],
        shape_fits(row@),
    ensures
        tensor_dims(t) == row@,
        tensor_is_f32(t),
{
    let d = constant_row(divisor, row);
    let raw = u32_tensor(values.as_slice()).unwrap();
    let v = to_float(&raw).unwrap();
    div_same(&v, &d).unwrap()
}

/// A tensor of the given shape, not a scalar, whose every element is the
/// float `value`.
pub(crate) fn constant_row(value: u32, shape: &Vec<usize>) -> (t: Tensor)
    requires
        shape_fits(shape@),
        shape@.len() >= 1,
    ensures
        tensor_dims(t) == shape@,
        tensor_is_f32(t),
{
    proof {
        lemma_numel_1(1);
    }
    let one = vec![value];
    let raw = u32_tensor(one.as_slice()).unwrap();
    let v = to_float(&raw).unwrap();
    assert(broadcasts_to(tensor_dims(v), shape@));
    broadcast_as(&v, shape.as_slice()).unwrap()
}

} // verus!
