//! The transformer: embedding, blocks of grouped-query attention and gated
//! feed-forward layers, final normalisation and vocabulary projection.

use vstd::prelude::*;
use candle_core::Tensor;
use crate::cache::Cache;
use crate::config::Config;
use crate::error::EngineError;
use crate::cache::kv_entry_extends;
use crate::cache::kv_entry_ok;
use crate::cache::rotary_shape;
use crate::shape::dims1;
use crate::shape::dims2;
use crate::shape::dims3;
use crate::shape::dims4;
use crate::shape::dims5;
use crate::shape::lemma_mul_le;
use crate::shape::lemma_numel_0;
use crate::shape::lemma_numel_1;
use crate::shape::lemma_numel_2;
use crate::shape::lemma_numel_3;
use crate::shape::lemma_numel_4;
use crate::shape::lemma_numel_5;
use vstd::arithmetic::div_mod::lemma_fundamental_div_mod_converse;
use crate::tensor::add_same;
use crate::tensor::broadcasts_to;
use crate::tensor::dense;
use crate::tensor::numel;
use crate::tensor::repeat_blocks;
use crate::tensor::tensor_is_contiguous;
use crate::tensor::tensor_is_u8;
use crate::tensor::tensor_le_bytes;
use crate::tensor::broadcast_as;
use crate::tensor::cat2;
use crate::tensor::is_f32;
use crate::tensor::tensor_is_f32;
use crate::tensor::contiguous;
use crate::tensor::div_same;
use crate::tensor::embedding;
use crate::tensor::linear;
use crate::tensor::matmul;
use crate::tensor::mul_same;
use crate::tensor::narrow;
use crate::tensor::reshape;
use crate::tensor::rms_norm;
use crate::tensor::shape_fits;
use crate::tensor::shape_of;
use crate::tensor::share;
use crate::tensor::silu;
use crate::tensor::softmax_last;
use crate::tensor::sqrt;
use crate::tensor::sub_same;
use crate::tensor::tensor_dims;
use crate::tensor::tensor_from_le_bytes;
use crate::tensor::to_float;
use crate::tensor::transpose;
use crate::tensor::u32_tensor;
use crate::tensor::where_cond;
use crate::weight_map::LayerPart;
use crate::weight_map::TensorName;
use crate::weight_map::WeightMap;

verus! {

/// The shape that a configuration demands of a named tensor.
pub open spec fn expected_shape(c: Config, name: TensorName) -> Seq<usize> {
    let head = (c.dim / c.n_heads) as usize;
    let kv = (head * c.n_kv_heads) as usize;
    match name {
        TensorName::EmbedTokens => seq![c.vocab_size, c.dim],
        TensorName::LmHead => seq![c.vocab_size, c.dim],
        TensorName::FinalNorm => seq![c.dim],
        TensorName::RotaryReal => seq![c.seq_len, (head / 2) as usize],
        TensorName::RotaryImag => seq![c.seq_len, (head / 2) as usize],
        TensorName::Layer(_, part) => match part {
            LayerPart::Query => seq![c.dim, c.dim],
            LayerPart::Key => seq![kv, c.dim],
            LayerPart::Value => seq![kv, c.dim],
            LayerPart::Output => seq![c.dim, c.dim],
            LayerPart::Gate => seq![c.hidden_dim, c.dim],
            LayerPart::Up => seq![c.hidden_dim, c.dim],
            LayerPart::Down => seq![c.dim, c.hidden_dim],
            LayerPart::InputNorm => seq![c.dim],
            LayerPart::PostAttentionNorm => seq![c.dim],
        },
    }
}

/// The names that a model of the given configuration reads.
pub open spec fn needed(c: Config, name: TensorName) -> bool {
    match name {
        TensorName::EmbedTokens => true,
        TensorName::LmHead => true,
        TensorName::FinalNorm => true,
        TensorName::RotaryReal => false,
        TensorName::RotaryImag => false,
        TensorName::Layer(layer, _) => layer < c.n_layers,
    }
}

/// Whether a weight map binds every name that the model reads to a tensor
/// of the shape that the configuration demands.
pub open spec fn complete(weights: WeightMap, c: Config) -> bool {
    forall|name: TensorName|
        needed(c, name) ==> (#[trigger] weights.spec_get(name) matches Some(t) && tensor_dims(t)
            == expected_shape(c, name))
}

/// Whether every tensor that the model reads and the weight map binds holds
/// 32-bit floats.
pub open spec fn all_f32(weights: WeightMap, c: Config) -> bool {
    forall|name: TensorName|
        needed(c, name) ==> (#[trigger] weights.spec_get(name) matches Some(t) ==> tensor_is_f32(t))
}

/// The shape that a configuration demands of a named tensor.
fn expected_shape_of(c: &Config, name: TensorName) -> (r: Vec<usize>)
    requires
        c.wf(),
    ensures
        r@ == expected_shape(*c, name),
        shape_fits(r@),
{
    proof {
        c.lemma_heads();
        lemma_numel_1(c.dim);
        lemma_numel_2(c.vocab_size, c.dim);
        lemma_numel_2(c.dim, c.dim);
        lemma_numel_2(c.hidden_dim, c.dim);
        lemma_numel_2(c.dim, c.hidden_dim);
        lemma_numel_2(c.spec_kv_dim() as usize, c.dim);
        lemma_numel_2(c.seq_len, (c.spec_head_size() / 2) as usize);
        lemma_mul_le(c.spec_kv_dim(), c.dim as nat, c.dim as nat, c.dim as nat);
        lemma_mul_le(
            c.seq_len as nat,
            c.spec_head_size() / 2,
            c.seq_len as nat,
            c.dim as nat,
        );
        assert(c.dim * c.hidden_dim == c.hidden_dim * c.dim) by (nonlinear_arith);
    }
    let head = c.head_size();
    let r = match name {
        TensorName::EmbedTokens => vec![c.vocab_size, c.dim],
        TensorName::LmHead => vec![c.vocab_size, c.dim],
        TensorName::FinalNorm => vec![c.dim],
        TensorName::RotaryReal => vec![c.seq_len, head / 2],
        TensorName::RotaryImag => vec![c.seq_len, head / 2],
        TensorName::Layer(_, part) => match part {
            LayerPart::Query => vec![c.dim, c.dim],
            LayerPart::Key => vec![c.kv_dim(), c.dim],
            LayerPart::Value => vec![c.kv_dim(), c.dim],
            LayerPart::Output => vec![c.dim, c.dim],
            LayerPart::Gate => vec![c.hidden_dim, c.dim],
            LayerPart::Up => vec![c.hidden_dim, c.dim],
            LayerPart::Down => vec![c.dim, c.hidden_dim],
            LayerPart::InputNorm => vec![c.dim],
            LayerPart::PostAttentionNorm => vec![c.dim],
        },
    };
    assert(r@ =~= expected_shape(*c, name));
    r
}

/// The gated feed-forward layer of a block.
struct Mlp {
    c_fc1: Tensor,
    c_fc2: Tensor,
    c_proj: Tensor,
}

/// The attention layer of a block.
struct CausalSelfAttention {
    q_proj: Tensor,
    k_proj: Tensor,
    v_proj: Tensor,
    o_proj: Tensor,
    n_head: usize,
    n_key_value_head: usize,
    head_dim: usize,
}

/// One transformer block.
struct Block {
    rms_1: Tensor,
    attn: CausalSelfAttention,
    rms_2: Tensor,
    mlp: Mlp,
}

impl Mlp {
    spec fn part(&self, part: LayerPart) -> Tensor {
        match part {
            LayerPart::Gate => self.c_fc1,
            LayerPart::Up => self.c_fc2,
            _ => self.c_proj,
        }
    }

    fn new(c_fc1: Tensor, c_fc2: Tensor, c_proj: Tensor) -> (r: Mlp)
        ensures
            r.c_fc1 == c_fc1,
            r.c_fc2 == c_fc2,
            r.c_proj == c_proj,
    {
        Mlp { c_fc1, c_fc2, c_proj }
    }

    spec fn wf(&self, c: Config) -> bool {
        &&& tensor_dims(self.c_fc1) == expected_shape(c, TensorName::Layer(0, LayerPart::Gate))
        &&& tensor_dims(self.c_fc2) == expected_shape(c, TensorName::Layer(0, LayerPart::Up))
        &&& tensor_dims(self.c_proj) == expected_shape(c, TensorName::Layer(0, LayerPart::Down))
    }

    /// The gated feed-forward layer: the activation of the first projection
    /// times the second, projected back to the model width.
    fn forward(&self, x: &Tensor, s: usize, dim: usize, hidden: usize, Ghost(c): Ghost<Config>) -> (out:
        Tensor)
        requires
            self.wf(c),
            self.spec_f32(),
            c.wf(),
            dim == c.dim,
            hidden == c.hidden_dim,
            1 <= s <= c.seq_len,
            tensor_dims(*x) == seq![1usize, s, c.dim],
            dense(*x),
        ensures
            tensor_dims(out) == seq![1usize, s, c.dim],
            dense(out),
    {
        proof {
            lemma_bounds(c, s, s, c.n_heads);
            lemma_numel_3(1, s, hidden);
            assert(c.dim * c.hidden_dim == c.hidden_dim * c.dim) by (nonlinear_arith);
        }
        let first = project(x, &self.c_fc1, s, dim, hidden);
        let second = project(x, &self.c_fc2, s, dim, hidden);
        let act = silu(&first).unwrap();
        let gated = mul_same(&act, &second).unwrap();
        let gated = contiguous(&gated).unwrap();
        project(&gated, &self.c_proj, s, hidden, dim)
    }

    spec fn spec_f32(&self) -> bool {
        tensor_is_f32(self.c_fc1) && tensor_is_f32(self.c_fc2) && tensor_is_f32(self.c_proj)
    }

    fn load(weights: &WeightMap, layer: usize, cfg: &Config) -> (r: Option<Mlp>)
        requires
            cfg.wf(),
        ensures
            match r {
                Some(m) => m.wf(*cfg) && forall|part: LayerPart|
                    (part == LayerPart::Gate || part == LayerPart::Up || part == LayerPart::Down)
                        ==> #[trigger] weights.spec_get(TensorName::Layer(layer, part)) == Some(
                        m.part(part),
                    ) && tensor_dims(m.part(part)) == expected_shape(
                        *cfg,
                        TensorName::Layer(layer, part),
                    ),
                None => exists|part: LayerPart|
                    !(#[trigger] weights.spec_get(TensorName::Layer(layer, part)) matches Some(t)
                        && tensor_dims(t) == expected_shape(*cfg, TensorName::Layer(layer, part))),
            },
    {
        let gate = fetch(weights, TensorName::Layer(layer, LayerPart::Gate), cfg)?;
        let up = fetch(weights, TensorName::Layer(layer, LayerPart::Up), cfg)?;
        let down = fetch(weights, TensorName::Layer(layer, LayerPart::Down), cfg)?;
        Some(Mlp::new(gate, up, down))
    }
}

/// The tensor bound to `name`, if it is there and has the shape that the
/// configuration demands.
fn fetch(weights: &WeightMap, name: TensorName, cfg: &Config) -> (r: Option<Tensor>)
    requires
        cfg.wf(),
    ensures
        match r {
            Some(t) => weights.spec_get(name) == Some(t) && tensor_dims(t) == expected_shape(
                *cfg,
                name,
            ),
            None => !(weights.spec_get(name) matches Some(t) && tensor_dims(t) == expected_shape(
                *cfg,
                name,
            )),
        },
{
    let shape = expected_shape_of(cfg, name);
    weights.get_shaped(name, &shape)
}

/// The products of dimensions that a forward pass over `s` new positions
/// and `t` attended positions computes with are all representable.
proof fn lemma_bounds(c: Config, s: usize, t: usize, h: usize)
    requires
        c.wf(),
        s <= c.seq_len,
        t <= c.seq_len,
        h == c.n_heads || h == c.n_kv_heads,
    ensures
        s * c.dim <= usize::MAX,
        s * c.hidden_dim <= usize::MAX,
        s * c.spec_kv_dim() <= usize::MAX,
        1 * (s * c.dim) <= usize::MAX,
        1 * (s * c.hidden_dim) <= usize::MAX,
        1 * (s * c.spec_kv_dim()) <= usize::MAX,
        1 * (s * (h * c.spec_head_size())) <= usize::MAX,
        1 * (s * (h * ((c.spec_head_size() / 2) * 2))) <= usize::MAX,
        1 * (s * (h * ((c.spec_head_size() / 2) * 1))) <= usize::MAX,
        1 * (s * (1 * ((c.spec_head_size() / 2) * 1))) <= usize::MAX,
        s * ((c.spec_head_size() / 2) * 1) <= usize::MAX,
        c.seq_len * ((c.spec_head_size() / 2) * 1) <= usize::MAX,
        1 * (t * (c.n_kv_heads * c.spec_head_size())) <= usize::MAX,
        1 * (t * (c.n_kv_heads * (1 * c.spec_head_size()))) <= usize::MAX,
        1 * (t * (c.n_kv_heads * (c.spec_repeat_factor() * c.spec_head_size()))) <= usize::MAX,
        1 * (t * (c.n_heads * c.spec_head_size())) <= usize::MAX,
        1 * (c.n_heads * (s * c.spec_head_size())) <= usize::MAX,
        1 * (c.n_heads * (t * c.spec_head_size())) <= usize::MAX,
        1 * (c.n_heads * (c.spec_head_size() * t)) <= usize::MAX,
        1 * (c.n_heads * (s * t)) <= usize::MAX,
        s * s <= usize::MAX,
        (c.spec_head_size() / 2) * 2 == c.spec_head_size(),
        c.n_kv_heads * c.spec_repeat_factor() == c.n_heads,
        c.n_heads * c.spec_head_size() == c.dim,
        c.n_kv_heads * c.spec_head_size() == c.spec_kv_dim(),
        h * c.spec_head_size() <= c.dim,
{
    c.lemma_heads();
    let hs = c.spec_head_size();
    let half = hs / 2;
    let nh = c.n_heads as nat;
    let kvh = c.n_kv_heads as nat;
    let rep = c.spec_repeat_factor();
    let d = c.dim as nat;
    let l = c.seq_len as nat;
    let kv = c.spec_kv_dim();
    let hh = h as nat;
    let sn = s as nat;
    let tn = t as nat;
    let m = usize::MAX as nat;
    assert(half * 2 == hs);
    assert(nh * hs == d) by (nonlinear_arith)
        requires
            hs * nh == d,
    ;
    assert(kvh * hs == kv) by (nonlinear_arith)
        requires
            kv == hs * kvh,
    ;
    assert(kvh * rep == nh) by (nonlinear_arith)
        requires
            rep * kvh == nh,
    ;
    assert(hh * hs <= d) by (nonlinear_arith)
        requires
            hh == nh || hh == kvh,
            nh * hs == d,
            kvh * hs == kv,
            kv <= d,
    ;
    assert(sn * d <= m && tn * d <= m) by (nonlinear_arith)
        requires
            sn <= l,
            tn <= l,
            l * d <= m,
    ;
    assert(sn * (c.hidden_dim as nat) <= m) by (nonlinear_arith)
        requires
            sn <= l,
            l * (c.hidden_dim as nat) <= m,
    ;
    assert(sn * kv <= m && tn * kv <= m) by (nonlinear_arith)
        requires
            sn * d <= m,
            tn * d <= m,
            kv <= d,
    ;
    assert(sn * (hh * hs) <= m) by (nonlinear_arith)
        requires
            sn * d <= m,
            hh * hs <= d,
    ;
    assert(hh * (half * 2) == hh * hs && hh * (half * 1) <= hh * hs && 1 * (half * 1) <= d)
        by (nonlinear_arith)
        requires
            half * 2 == hs,
            hs <= d,
    ;
    assert(sn * (hh * (half * 1)) <= m && sn * (1 * (half * 1)) <= m && sn * (half * 1) <= m && l
        * (half * 1) <= m) by (nonlinear_arith)
        requires
            sn * (hh * hs) <= m,
            hh * (half * 1) <= hh * hs,
            1 * (half * 1) <= d,
            sn * d <= m,
            sn <= l,
            l * d <= m,
    ;
    assert(tn * (kvh * (1 * hs)) <= m && tn * (kvh * (rep * hs)) <= m && tn * (nh * hs) <= m && tn
        * (kvh * hs) <= m) by (nonlinear_arith)
        requires
            tn * d <= m,
            tn * kv <= m,
            kvh * hs == kv,
            nh * hs == d,
            kvh * rep == nh,
    ;
    assert(nh * (sn * hs) <= m && nh * (tn * hs) <= m && nh * (hs * tn) <= m) by (nonlinear_arith)
        requires
            sn * d <= m,
            tn * d <= m,
            nh * hs == d,
    ;
    assert(nh * (sn * tn) <= m && sn * sn <= m) by (nonlinear_arith)
        requires
            sn <= l,
            tn <= l,
            nh >= 1,
            nh * (l * l) <= m,
    ;
}

/// A linear layer on a batch of one: `[1, s, n_in]` to `[1, s, n_out]`.
fn project(x: &Tensor, w: &Tensor, s: usize, n_in: usize, n_out: usize) -> (out: Tensor)
    requires
        tensor_dims(*x) == seq![1usize, s, n_in],
        tensor_dims(*w) == seq![n_out, n_in],
        dense(*x),
        tensor_is_f32(*w),
        s >= 1,
        1 * (s * n_in) <= usize::MAX,
        1 * (s * n_out) <= usize::MAX,
        n_out * n_in <= usize::MAX,
    ensures
        tensor_dims(out) == seq![1usize, s, n_out],
        dense(out),
{
    proof {
        lemma_numel_3(1, s, n_in);
        lemma_numel_3(1, s, n_out);
        lemma_numel_2(n_out, n_in);
        assert(seq![1usize, s, n_in].update(2, n_out) =~= seq![1usize, s, n_out]);
    }
    linear(x, w).unwrap()
}

/// Root-mean-square normalisation on a batch of one.
fn normalise(x: &Tensor, w: &Tensor, eps_bits: u64, s: usize, n: usize) -> (out: Tensor)
    requires
        tensor_dims(*x) == seq![1usize, s, n],
        tensor_dims(*w) == seq![n],
        dense(*x),
        tensor_is_f32(*w),
        n > 0,
        1 * (s * n) <= usize::MAX,
    ensures
        tensor_dims(out) == seq![1usize, s, n],
        dense(out),
{
    proof {
        lemma_numel_3(1, s, n);
        lemma_numel_1(n);
    }
    let scale = contiguous(w).unwrap();
    rms_norm(x, &scale, eps_bits).unwrap()
}

/// The same elements under another shape with as many elements, laid out
/// in row-major order.
fn view(x: &Tensor, shape: &Vec<usize>) -> (out: Tensor)
    requires
        shape_fits(tensor_dims(*x)),
        shape_fits(shape@),
        numel(shape@) == numel(tensor_dims(*x)),
    ensures
        tensor_dims(out) == shape@,
        tensor_is_contiguous(out),
        tensor_is_f32(out) == tensor_is_f32(*x),
        tensor_le_bytes(out) == tensor_le_bytes(*x),
{
    reshape(x, shape.as_slice()).unwrap()
}

/// A view of `x` under a larger shape that its dimensions match.
fn spread(x: &Tensor, shape: &Vec<usize>) -> (out: Tensor)
    requires
        shape_fits(tensor_dims(*x)),
        shape_fits(shape@),
        broadcasts_to(tensor_dims(*x), shape@),
    ensures
        tensor_dims(out) == shape@,
        tensor_is_f32(out) == tensor_is_f32(*x),
        tensor_is_u8(out) == tensor_is_u8(*x),
{
    broadcast_as(x, shape.as_slice()).unwrap()
}

/// Swaps two dimensions of a rank-four tensor and lays the result out in
/// row-major order.
fn swap4(x: &Tensor, d1: usize, d2: usize, Ghost(dims): Ghost<Seq<usize>>) -> (out: Tensor)
    requires
        tensor_dims(*x) == dims,
        tensor_is_f32(*x),
        dims.len() == 4,
        d1 < 4,
        d2 < 4,
        shape_fits(dims),
        shape_fits(dims.update(d1 as int, dims[d2 as int]).update(d2 as int, dims[d1 as int])),
    ensures
        tensor_dims(out) == dims.update(d1 as int, dims[d2 as int]).update(
            d2 as int,
            dims[d1 as int],
        ),
        dense(out),
{
    let moved = transpose(x, d1, d2).unwrap();
    contiguous(&moved).unwrap()
}

/// The bytes of keys or values after every head was repeated `rep` times
/// in a row, for `groups` heads over all positions.
pub open spec fn kv_expanded(src: Seq<u8>, groups: nat, rep: nat) -> Seq<u8> {
    if rep == 1 {
        src
    } else {
        repeat_blocks(src, src.len() / groups, rep)
    }
}

/// In bytes written block by block, each block `n` times in a row, the
/// `j`-th block of the result is block `j / n` of the source: with the
/// heads of keys or values as blocks, query head `q` at a position reads the
/// key/value head `q / n` at that position.
pub proof fn lemma_repeated_block(src: Seq<u8>, block: nat, n: nat, j: nat)
    requires
        block > 0,
        n > 0,
        src.len() % block == 0,
        j < (src.len() / block) * n,
    ensures
        (j + 1) * block <= repeat_blocks(src, block, n).len(),
        (j / n + 1) * block <= src.len(),
        repeat_blocks(src, block, n).subrange((j * block) as int, ((j + 1) * block) as int)
            == src.subrange(((j / n) * block) as int, ((j / n + 1) * block) as int),
{
    let total = src.len() / block;
    let out = repeat_blocks(src, block, n);
    let g = j / n;
    assert(src.len() == total * block) by (nonlinear_arith)
        requires
            total == src.len() / block,
            src.len() % block == 0,
            block > 0,
    ;
    assert(g < total && j == g * n + j % n && j % n < n) by (nonlinear_arith)
        requires
            g == j / n,
            j < total * n,
            n > 0,
    ;
    assert((j + 1) * block <= src.len() * n && (g + 1) * block <= src.len()) by (nonlinear_arith)
        requires
            j < total * n,
            g < total,
            src.len() == total * block,
            block > 0,
    ;
    assert(out.len() == src.len() * n);
    let r = j % n;
    assert(r * block + block <= n * block) by (nonlinear_arith)
        requires
            r < n,
    ;
    assert(j * block == g * (block * n) + r * block) by (nonlinear_arith)
        requires
            j == g * n + r,
    ;
    assert((j + 1) * block == j * block + block && (g + 1) * block == g * block + block && block
        * n == n * block) by (nonlinear_arith);
    assert forall|k: int| 0 <= k < block implies 0 <= j * block + k < out.len() && #[trigger] out[j
        * block + k] == src[g * block + k] by {
        let i = j * block + k;
        assert(0 <= i < out.len());
        assert(i == g * (block * n) + (r * block + k));
        assert(0 <= r * block + k < block * n);
        lemma_fundamental_div_mod_converse(i, (block * n) as int, g as int, r * block + k);
        lemma_fundamental_div_mod_converse(i, block as int, j as int, k);
        assert(i / ((block * n) as int) == g);
        assert(i % (block as int) == k);
        assert(out[i] == src[(i / ((block * n) as int)) * (block as int) + i % (block as int)]);
    }
    let left = out.subrange((j * block) as int, ((j + 1) * block) as int);
    let right = src.subrange((g * block) as int, ((g + 1) * block) as int);
    assert(left.len() == right.len());
    assert forall|k: int| 0 <= k < left.len() implies left[k] == right[k] by {
        assert(out[j * block + k] == src[g * block + k]);
    }
    assert(left =~= right);
}

/// Grouped queries: in keys or values expanded `rep` times, the bytes of
/// query head `q` at position `p` are the bytes of key/value head `q / rep`
/// at that position, so that key/value head `h` serves exactly the query
/// heads from `h * rep` up to, not including, `(h + 1) * rep`.  `src` holds
/// `t` positions of `n_kv` heads of `block` bytes each.
pub proof fn lemma_query_head_reads_its_group(
    src: Seq<u8>,
    block: nat,
    t: nat,
    n_kv: nat,
    rep: nat,
    p: nat,
    q: nat,
)
    requires
        block > 0,
        rep > 0,
        src.len() == (t * n_kv) * block,
        p < t,
        q < n_kv * rep,
    ensures
        ({
            let out = kv_expanded(src, t * n_kv, rep);
            let to = p * (n_kv * rep) + q;
            let from = p * n_kv + q / rep;
            &&& q / rep < n_kv
            &&& (q / rep) * rep <= q < (q / rep + 1) * rep
            &&& (to + 1) * block <= out.len()
            &&& (from + 1) * block <= src.len()
            &&& out.subrange((to * block) as int, ((to + 1) * block) as int) == src.subrange(
                (from * block) as int,
                ((from + 1) * block) as int,
            )
        }),
{
    let kv = n_kv;
    let nh = n_kv * rep;
    let groups = t * kv;
    let h = q / rep;
    let to = p * nh + q;
    let from = p * kv + h;
    assert(h * rep <= q < (h + 1) * rep && h < kv) by (nonlinear_arith)
        requires
            h == q / rep,
            rep > 0,
            q < kv * rep,
    ;
    assert(kv > 0) by (nonlinear_arith)
        requires
            q < kv * rep,
    ;
    assert(groups > 0 && src.len() / block == groups && src.len() % block == 0) by {
        assert(groups > 0) by (nonlinear_arith)
            requires
                groups == t * kv,
                p < t,
                kv > 0,
        ;
        lemma_fundamental_div_mod_converse(src.len() as int, block as int, groups as int, 0);
    }
    assert(src.len() / groups == block) by {
        assert(src.len() == block * groups) by (nonlinear_arith)
            requires
                src.len() == groups * block,
        ;
        lemma_fundamental_div_mod_converse(src.len() as int, groups as int, block as int, 0);
    }
    assert(from < groups && (from + 1) * block <= src.len()) by (nonlinear_arith)
        requires
            from == p * kv + h,
            h < kv,
            p < t,
            groups == t * kv,
            src.len() == groups * block,
    ;
    if rep == 1 {
        assert(nh == kv && h == q && to == from) by (nonlinear_arith)
            requires
                nh == kv * rep,
                rep == 1,
                h * rep <= q < (h + 1) * rep,
                to == p * nh + q,
                from == p * kv + h,
        ;
    } else {
        assert(to == from * rep + (q - h * rep) && 0 <= q - h * rep < rep) by (nonlinear_arith)
            requires
                to == p * nh + q,
                from == p * kv + h,
                nh == kv * rep,
                h * rep <= q < (h + 1) * rep,
        ;
        lemma_fundamental_div_mod_converse(to as int, rep as int, from as int, q - h * rep);
        assert(to < groups * rep) by (nonlinear_arith)
            requires
                to == from * rep + (q - h * rep),
                q - h * rep < rep,
                from < groups,
        ;
        lemma_repeated_block(src, block, rep, to);
    }
}

/// Repeats every key/value head `n_rep` times in a row:
/// `[1, t, n_kv_heads, head_dim]` to `[1, t, n_kv_heads * n_rep, head_dim]`.
/// The result holds the bytes of every head of `x` as often in a row as
/// asked, so that head `q` of the result is head `q / n_rep` of `x`.
pub fn repeat_kv(x: Tensor, t: usize, n_kv_heads: usize, n_rep: usize, head_dim: usize) -> (out:
    Tensor)
    requires
        tensor_dims(x) == seq![1usize, t, n_kv_heads, head_dim],
        dense(x),
        n_rep >= 1,
        n_kv_heads * n_rep <= usize::MAX,
        1 * (t * (n_kv_heads * (n_rep * head_dim))) <= usize::MAX,
    ensures
        tensor_dims(out) == seq![1usize, t, (n_kv_heads * n_rep) as usize, head_dim],
        dense(out),
        tensor_le_bytes(out) == kv_expanded(
            tensor_le_bytes(x),
            numel(seq![1usize, t, n_kv_heads]),
            n_rep as nat,
        ),
{
    if n_rep == 1 {
        proof {
            assert(n_kv_heads * 1 == n_kv_heads) by (nonlinear_arith);
        }
        x
    } else {
        let n_head = n_kv_heads * n_rep;
        proof {
            lemma_numel_4(1, t, n_kv_heads, head_dim);
            lemma_numel_4(1, t, n_head, head_dim);
            lemma_numel_5(1, t, n_kv_heads, 1, head_dim);
            lemma_numel_5(1, t, n_kv_heads, n_rep, head_dim);
            assert(1 * (t * (n_kv_heads * (n_rep * head_dim))) == 1 * (t * (n_head * head_dim)))
                by (nonlinear_arith)
                requires
                    n_kv_heads * n_rep == n_head,
            ;
            assert(1 * (t * (n_kv_heads * (1 * head_dim))) == 1 * (t * (n_kv_heads * head_dim))
                && 1 * (t * (n_kv_heads * (1 * head_dim))) <= 1 * (t * (n_kv_heads * (n_rep
                * head_dim)))) by (nonlinear_arith)
                requires
                    n_rep >= 1,
            ;
        }
        let single = dims5(1, t, n_kv_heads, 1, head_dim);
        let many = dims5(1, t, n_kv_heads, n_rep, head_dim);
        let merged = dims4(1, t, n_head, head_dim);
        let split = view(&x, &single);
        proof {
            assert(broadcasts_to(single@, many@));
            assert(many@ =~= single@.update(3, many@[3]));
            assert(single@.take(3) =~= seq![1usize, t, n_kv_heads]);
        }
        let copied = broadcast_as(&split, many.as_slice()).unwrap();
        view(&copied, &merged)
    }
}

impl CausalSelfAttention {
    spec fn part(&self, part: LayerPart) -> Tensor {
        match part {
            LayerPart::Query => self.q_proj,
            LayerPart::Key => self.k_proj,
            LayerPart::Value => self.v_proj,
            _ => self.o_proj,
        }
    }

    spec fn wf(&self, c: Config) -> bool {
        &&& self.n_head == c.n_heads
        &&& self.n_key_value_head == c.n_kv_heads
        &&& self.head_dim == c.spec_head_size()
        &&& tensor_dims(self.q_proj) == expected_shape(c, TensorName::Layer(0, LayerPart::Query))
        &&& tensor_dims(self.k_proj) == expected_shape(c, TensorName::Layer(0, LayerPart::Key))
        &&& tensor_dims(self.v_proj) == expected_shape(c, TensorName::Layer(0, LayerPart::Value))
        &&& tensor_dims(self.o_proj) == expected_shape(c, TensorName::Layer(0, LayerPart::Output))
    }

    fn load(weights: &WeightMap, layer: usize, cfg: &Config) -> (r: Option<CausalSelfAttention>)
        requires
            cfg.wf(),
        ensures
            match r {
                Some(a) => a.wf(*cfg) && forall|part: LayerPart|
                    (part == LayerPart::Query || part == LayerPart::Key || part == LayerPart::Value
                        || part == LayerPart::Output) ==> #[trigger] weights.spec_get(
                        TensorName::Layer(layer, part),
                    ) == Some(a.part(part)),
                None => exists|part: LayerPart|
                    !(#[trigger] weights.spec_get(TensorName::Layer(layer, part)) matches Some(t)
                        && tensor_dims(t) == expected_shape(*cfg, TensorName::Layer(layer, part))),
            },
    {
        let q_proj = fetch(weights, TensorName::Layer(layer, LayerPart::Query), cfg)?;
        let k_proj = fetch(weights, TensorName::Layer(layer, LayerPart::Key), cfg)?;
        let v_proj = fetch(weights, TensorName::Layer(layer, LayerPart::Value), cfg)?;
        let o_proj = fetch(weights, TensorName::Layer(layer, LayerPart::Output), cfg)?;
        Some(
            CausalSelfAttention {
                q_proj,
                k_proj,
                v_proj,
                o_proj,
                n_head: cfg.n_heads,
                n_key_value_head: cfg.n_kv_heads,
                head_dim: cfg.head_size(),
            },
        )
    }

    spec fn spec_f32(&self) -> bool {
        tensor_is_f32(self.q_proj) && tensor_is_f32(self.k_proj) && tensor_is_f32(self.v_proj)
            && tensor_is_f32(self.o_proj)
    }

    /// Rotates every pair of coordinates of every head of `x`, of shape
    /// `[1, s, h, head_dim]`, by the angle of its position.
    fn apply_rotary_emb(
        &self,
        x: &Tensor,
        index_pos: usize,
        s: usize,
        h: usize,
        cache: &Cache,
        Ghost(c): Ghost<Config>,
    ) -> (out: Tensor)
        requires
            self.wf(c),
            cache.wf(),
            cache.config() == c,
            h == c.n_heads || h == c.n_kv_heads,
            tensor_dims(*x) == seq![1usize, s, h, self.head_dim],
            tensor_is_f32(*x),
            s >= 1,
            index_pos + s <= c.seq_len,
        ensures
            tensor_dims(out) == seq![1usize, s, h, self.head_dim],
            dense(out),
    {
        proof {
            cache.lemma_wf();
            lemma_bounds(c, s, s, h);
        }
        let half = self.head_dim / 2;
        let ghost table = seq![c.seq_len, half, 1usize];
        proof {
            assert(rotary_shape(c).push(1) =~= table);
            lemma_numel_3(c.seq_len, half, 1);
            lemma_numel_3(s, half, 1);
            lemma_numel_4(1, s, h, self.head_dim);
            assert(table.update(0, s) =~= seq![s, half, 1usize]);
        }
        let cos_rows = narrow(&cache.cos_handle(), 0, index_pos, s).unwrap();
        let sin_rows = narrow(&cache.sin_handle(), 0, index_pos, s).unwrap();
        let thin = dims5(1, s, 1, half, 1);
        let pairs = dims5(1, s, h, half, 2);
        let ones = dims5(1, s, h, half, 1);
        proof {
            lemma_numel_5(1, s, 1, half, 1);
            lemma_numel_5(1, s, h, half, 2);
            lemma_numel_5(1, s, h, half, 1);
            assert(broadcasts_to(thin@, ones@));
        }
        let cos_thin = view(&cos_rows, &thin);
        let sin_thin = view(&sin_rows, &thin);
        let cos_all = spread(&cos_thin, &ones);
        let sin_all = spread(&sin_thin, &ones);
        let paired = view(x, &pairs);
        proof {
            assert(pairs@.update(4, 1usize) =~= ones@);
        }
        let x0 = narrow(&paired, 4, 0, 1).unwrap();
        let x1 = narrow(&paired, 4, 1, 1).unwrap();
        let x0_cos = mul_same(&x0, &cos_all).unwrap();
        let x1_sin = mul_same(&x1, &sin_all).unwrap();
        let x0_sin = mul_same(&x0, &sin_all).unwrap();
        let x1_cos = mul_same(&x1, &cos_all).unwrap();
        let dst0 = sub_same(&x0_cos, &x1_sin).unwrap();
        let dst1 = add_same(&x0_sin, &x1_cos).unwrap();
        let dst0 = contiguous(&dst0).unwrap();
        let dst1 = contiguous(&dst1).unwrap();
        proof {
            assert(ones@.update(4, (1 + 1) as usize) =~= pairs@);
            assert(ones@.update(4, 1usize) =~= ones@);
        }
        let joined = cat2(&dst0, &dst1, 4).unwrap();
        let flat = dims4(1, s, h, self.head_dim);
        view(&joined, &flat)
    }

    /// Repeats every key/value head for the query heads that share it:
    /// `[1, t, n_kv_heads, head_dim]` to `[1, t, n_heads, head_dim]`.  The
    /// result holds every head of `x` as often in a row as there are query
    /// heads to a key/value head, so that head `q` of the result is head
    /// `q / repeat_factor` of `x`.
    fn repeat_kv(&self, x: Tensor, t: usize) -> (out: Tensor)
        requires
            self.n_key_value_head > 0,
            self.n_head % self.n_key_value_head == 0,
            self.n_head >= self.n_key_value_head,
            tensor_dims(x) == seq![1usize, t, self.n_key_value_head, self.head_dim],
            dense(x),
            1 * (t * (self.n_head * self.head_dim)) <= usize::MAX,
        ensures
            tensor_dims(out) == seq![1usize, t, self.n_head, self.head_dim],
            dense(out),
            tensor_le_bytes(out) == kv_expanded(
                tensor_le_bytes(x),
                numel(seq![1usize, t, self.n_key_value_head]),
                (self.n_head / self.n_key_value_head) as nat,
            ),
    {
        let n_rep = self.n_head / self.n_key_value_head;
        proof {
            let kv = self.n_key_value_head as nat;
            let nh = self.n_head as nat;
            let rep = n_rep as nat;
            let hd = self.head_dim as nat;
            assert(kv * rep == nh && rep >= 1) by (nonlinear_arith)
                requires
                    rep == nh / kv,
                    nh % kv == 0,
                    nh >= kv,
                    kv > 0,
            ;
            assert(1 * (t * (kv * (rep * hd))) == 1 * (t * (nh * hd))) by (nonlinear_arith)
                requires
                    kv * rep == nh,
            ;
        }
        repeat_kv(x, t, self.n_key_value_head, n_rep, self.head_dim)
    }

    /// Attention over the new positions and everything the cache holds for
    /// the block.  More than one new position can only attend to itself:
    /// the causal mask covers the new positions alone.
    fn forward(
        &self,
        x: &Tensor,
        index_pos: usize,
        block_idx: usize,
        s: usize,
        cache: &mut Cache,
        Ghost(c): Ghost<Config>,
    ) -> (out: Tensor)
        requires
            self.wf(c),
            self.spec_f32(),
            old(cache).wf(),
            old(cache).config() == c,
            tensor_dims(*x) == seq![1usize, s, c.dim],
            dense(*x),
            s >= 1,
            index_pos + s <= c.seq_len,
            block_idx < c.n_layers,
            old(cache).layer_len(block_idx as int) + s <= c.seq_len,
            s == 1 || old(cache).layer_len(block_idx as int) == 0,
        ensures
            final(cache).wf(),
            final(cache).config() == c,
            final(cache).caching() == old(cache).caching(),
            forall|i: int|
                0 <= i < c.n_layers && i != block_idx ==> #[trigger] final(cache).entry(i) == old(cache).entry(i),
            tensor_dims(out) == seq![1usize, s, c.dim],
            dense(out),
            final(cache).layer_len(block_idx as int) == (if old(cache).caching() {
                old(cache).layer_len(block_idx as int) + s
            } else {
                0
            }),
            kv_entry_extends(old(cache).entry(block_idx as int), final(cache).entry(block_idx as int)),
    {
        proof {
            cache.lemma_wf();
            lemma_bounds(c, s, s, c.n_heads);
            lemma_bounds(c, s, s, c.n_kv_heads);
            c.lemma_heads();
            lemma_mul_le(c.spec_kv_dim(), c.dim as nat, c.dim as nat, c.dim as nat);
        }
        let dim = self.n_head * self.head_dim;
        let kv = self.n_key_value_head * self.head_dim;
        let q = project(x, &self.q_proj, s, dim, dim);
        let k = project(x, &self.k_proj, s, dim, kv);
        let v = project(x, &self.v_proj, s, dim, kv);
        proof {
            lemma_numel_3(1, s, dim);
            lemma_numel_3(1, s, kv);
            lemma_numel_4(1, s, self.n_head, self.head_dim);
            lemma_numel_4(1, s, self.n_key_value_head, self.head_dim);
        }
        let q_heads = dims4(1, s, self.n_head, self.head_dim);
        let kv_heads = dims4(1, s, self.n_key_value_head, self.head_dim);
        let q = view(&q, &q_heads);
        let k = view(&k, &kv_heads);
        let v = view(&v, &kv_heads);
        let q = self.apply_rotary_emb(&q, index_pos, s, self.n_head, cache, Ghost(c));
        let k = self.apply_rotary_emb(&k, index_pos, s, self.n_key_value_head, cache, Ghost(c));
        let mut keys = k;
        let mut values = v;
        let mut t: usize = s;
        if cache.use_kv_cache() {
            match cache.get(block_idx) {
                Some((cache_k, cache_v)) => {
                    let past = shape_of(&cache_k);
                    let len = past[1];
                    proof {
                        assert(kv_entry_ok(c, cache.entry(block_idx as int)));
                        assert(len == cache.layer_len(block_idx as int));
                        lemma_bounds(c, len, (len + s) as usize, c.n_kv_heads);
                        lemma_numel_4(1, len, self.n_key_value_head, self.head_dim);
                        lemma_numel_4(1, s, self.n_key_value_head, self.head_dim);
                        lemma_numel_4(
                            1,
                            (len + s) as usize,
                            self.n_key_value_head,
                            self.head_dim,
                        );
                        assert(tensor_dims(cache_k).update(1, (len + s) as usize) =~= seq![
                            1usize,
                            (len + s) as usize,
                            self.n_key_value_head,
                            self.head_dim,
                        ]);
                        assert(tensor_dims(keys) =~= tensor_dims(cache_k).update(
                            1,
                            tensor_dims(keys)[1],
                        ));
                        assert(tensor_dims(cache_k).take(1) =~= seq![1usize]);
                        lemma_numel_1(1);
                    }
                    let ghost new_keys = tensor_le_bytes(keys);
                    let ghost new_values = tensor_le_bytes(values);
                    keys = cat2(&cache_k, &keys, 1).unwrap();
                    values = cat2(&cache_v, &values, 1).unwrap();
                    proof {
                        assert(tensor_le_bytes(cache_k) =~= (tensor_le_bytes(cache_k)
                            + new_keys).subrange(0, tensor_le_bytes(cache_k).len() as int));
                        assert(tensor_le_bytes(cache_v) =~= (tensor_le_bytes(cache_v)
                            + new_values).subrange(0, tensor_le_bytes(cache_v).len() as int));
                    }
                    t = len + s;
                },
                None => {},
            }
            cache.put(block_idx, share(&keys), share(&values));
        }
        proof {
            lemma_bounds(c, s, t, c.n_heads);
        }
        let keys = self.repeat_kv(keys, t);
        let values = self.repeat_kv(values, t);
        let ghost q_dims = seq![1usize, s, self.n_head, self.head_dim];
        let ghost k_dims = seq![1usize, t, self.n_head, self.head_dim];
        let ghost q_t = seq![1usize, self.n_head, s, self.head_dim];
        let ghost k_t = seq![1usize, self.n_head, t, self.head_dim];
        let ghost k_tt = seq![1usize, self.n_head, self.head_dim, t];
        let ghost scores = seq![1usize, self.n_head, s, t];
        proof {
            lemma_numel_4(1, s, self.n_head, self.head_dim);
            lemma_numel_4(1, t, self.n_head, self.head_dim);
            lemma_numel_4(1, self.n_head, s, self.head_dim);
            lemma_numel_4(1, self.n_head, t, self.head_dim);
            lemma_numel_4(1, self.n_head, self.head_dim, t);
            lemma_numel_4(1, self.n_head, s, t);
            assert(q_dims.update(1, q_dims[2]).update(2, q_dims[1]) =~= q_t);
            assert(k_dims.update(1, k_dims[2]).update(2, k_dims[1]) =~= k_t);
            assert(k_t.update(2, k_t[3]).update(3, k_t[2]) =~= k_tt);
            assert(q_t.update(3, t) =~= scores);
            assert(scores.update(3, self.head_dim) =~= q_t);
            assert(q_t.update(1, q_t[2]).update(2, q_t[1]) =~= q_dims);
            assert(q_t.take(2) =~= k_tt.take(2));
            assert(scores.take(2) =~= k_t.take(2));
        }
        let q = swap4(&q, 1, 2, Ghost(q_dims));
        let keys = swap4(&keys, 1, 2, Ghost(k_dims));
        let values = swap4(&values, 1, 2, Ghost(k_dims));
        let keys_t = swap4(&keys, 2, 3, Ghost(k_t));
        let att = matmul(&q, &keys_t).unwrap();
        let att_shape = dims4(1, self.n_head, s, t);
        let scale = root_constant(self.head_dim, &att_shape);
        let att = div_same(&att, &scale).unwrap();
        let att = if s > 1 {
            let mask = cache.mask(s).unwrap();
            proof {
                lemma_numel_2(s, s);
                assert(broadcasts_to(seq![s, s], att_shape@));
            }
            let mask_all = spread(&mask, &att_shape);
            let floor = negative_infinity(&att_shape);
            where_cond(&mask_all, &floor, &att).unwrap()
        } else {
            att
        };
        proof {
            assert(1 * (self.n_head * (s * t)) > 0) by (nonlinear_arith)
                requires
                    self.n_head >= 1,
                    s >= 1,
                    t >= 1,
            ;
        }
        let att = softmax_last(&att).unwrap();
        let att = contiguous(&att).unwrap();
        let y = matmul(&att, &values).unwrap();
        let y = transpose(&y, 1, 2).unwrap();
        let merged = dims3(1, s, dim);
        let y = view(&y, &merged);
        project(&y, &self.o_proj, s, dim, dim)
    }
}

/// Whether every token lies below a bound.
fn all_below(tokens: &[u32], bound: usize) -> (r: bool)
    ensures
        r == forall|i: int| 0 <= i < tokens@.len() ==> #[trigger] tokens@[i] < bound,
{
    let mut n: usize = 0;
    while n < tokens.len()
        invariant
            0 <= n <= tokens@.len(),
            forall|i: int| 0 <= i < n ==> #[trigger] tokens@[i] < bound,
        decreases tokens@.len() - n,
    {
        if tokens[n] as usize >= bound {
            return false;
        }
        n += 1;
    }
    true
}

/// A tensor of the given shape, not a scalar, whose every element is the
/// square root of `value`.
fn root_constant(value: usize, shape: &Vec<usize>) -> (t: Tensor)
    requires
        value <= u32::MAX,
        shape_fits(shape@),
        shape@.len() >= 1,
    ensures
        tensor_dims(t) == shape@,
        tensor_is_f32(t),
{
    proof {
        lemma_numel_1(1);
    }
    let one = vec![value as u32];
    let raw = u32_tensor(one.as_slice()).unwrap();
    let float = to_float(&raw).unwrap();
    let root = sqrt(&float).unwrap();
    assert(broadcasts_to(tensor_dims(root), shape@));
    spread(&root, shape)
}

/// A tensor of the given shape whose every element is negative infinity.
fn negative_infinity(shape: &Vec<usize>) -> (t: Tensor)
    requires
        shape_fits(shape@),
    ensures
        tensor_dims(t) == shape@,
        tensor_is_f32(t),
{
    proof {
        lemma_numel_0();
    }
    let bits: Vec<u8> = vec![0x00, 0x00, 0x80, 0xff];
    let scalar: Vec<usize> = Vec::new();
    assert(scalar@ =~= Seq::<usize>::empty());
    let point = tensor_from_le_bytes(bits.as_slice(), 1, scalar.as_slice()).unwrap();
    assert(broadcasts_to(tensor_dims(point), shape@));
    spread(&point, shape)
}

impl Block {
    spec fn part(&self, part: LayerPart) -> Tensor {
        match part {
            LayerPart::InputNorm => self.rms_1,
            LayerPart::PostAttentionNorm => self.rms_2,
            LayerPart::Gate => self.mlp.part(part),
            LayerPart::Up => self.mlp.part(part),
            LayerPart::Down => self.mlp.part(part),
            _ => self.attn.part(part),
        }
    }

    spec fn wf(&self, c: Config) -> bool {
        &&& tensor_dims(self.rms_1) == seq![c.dim]
        &&& tensor_dims(self.rms_2) == seq![c.dim]
        &&& self.attn.wf(c)
        &&& self.mlp.wf(c)
    }

    spec fn spec_f32(&self) -> bool {
        forall|part: LayerPart| tensor_is_f32(#[trigger] self.part(part))
    }

    /// Whether every tensor of the block holds 32-bit floats.
    fn holds_f32(&self) -> (r: bool)
        ensures
            r == self.spec_f32(),
    {
        let r = is_f32(&self.rms_1) && is_f32(&self.rms_2) && is_f32(&self.attn.q_proj) && is_f32(
            &self.attn.k_proj,
        ) && is_f32(&self.attn.v_proj) && is_f32(&self.attn.o_proj) && is_f32(&self.mlp.c_fc1)
            && is_f32(&self.mlp.c_fc2) && is_f32(&self.mlp.c_proj);
        proof {
            if r {
                assert forall|part: LayerPart| tensor_is_f32(#[trigger] self.part(part)) by {
                    match part {
                        LayerPart::Query => {},
                        LayerPart::Key => {},
                        LayerPart::Value => {},
                        LayerPart::Output => {},
                        LayerPart::Gate => {},
                        LayerPart::Up => {},
                        LayerPart::Down => {},
                        LayerPart::InputNorm => {},
                        LayerPart::PostAttentionNorm => {},
                    }
                }
            } else {
                assert(self.part(LayerPart::InputNorm) == self.rms_1);
                assert(self.part(LayerPart::PostAttentionNorm) == self.rms_2);
                assert(self.part(LayerPart::Query) == self.attn.q_proj);
                assert(self.part(LayerPart::Key) == self.attn.k_proj);
                assert(self.part(LayerPart::Value) == self.attn.v_proj);
                assert(self.part(LayerPart::Output) == self.attn.o_proj);
                assert(self.part(LayerPart::Gate) == self.mlp.c_fc1);
                assert(self.part(LayerPart::Up) == self.mlp.c_fc2);
                assert(self.part(LayerPart::Down) == self.mlp.c_proj);
            }
        }
        r
    }

    fn new(rms_1: Tensor, attn: CausalSelfAttention, rms_2: Tensor, mlp: Mlp) -> (r: Block)
        ensures
            r.rms_1 == rms_1,
            r.attn == attn,
            r.rms_2 == rms_2,
            r.mlp == mlp,
    {
        Block { rms_1, attn, rms_2, mlp }
    }

    fn load(weights: &WeightMap, layer: usize, cfg: &Config) -> (r: Option<Block>)
        requires
            cfg.wf(),
        ensures
            match r {
                Some(b) => b.wf(*cfg) && forall|part: LayerPart| #[trigger]
                    weights.spec_get(TensorName::Layer(layer, part)) == Some(b.part(part)),
                None => exists|part: LayerPart|
                    !(#[trigger] weights.spec_get(TensorName::Layer(layer, part)) matches Some(t)
                        && tensor_dims(t) == expected_shape(*cfg, TensorName::Layer(layer, part))),
            },
    {
        let attn = CausalSelfAttention::load(weights, layer, cfg)?;
        let mlp = Mlp::load(weights, layer, cfg)?;
        let input_layernorm = fetch(weights, TensorName::Layer(layer, LayerPart::InputNorm), cfg)?;
        let post_attention_layernorm = fetch(
            weights,
            TensorName::Layer(layer, LayerPart::PostAttentionNorm),
            cfg,
        )?;
        Some(Block::new(input_layernorm, attn, post_attention_layernorm, mlp))
    }

    /// One block: attention and feed-forward, each on the normalised
    /// stream and added back to it.
    fn forward(
        &self,
        x: &Tensor,
        index_pos: usize,
        block_idx: usize,
        s: usize,
        cache: &mut Cache,
        cfg: &Config,
    ) -> (out: Tensor)
        requires
            self.wf(*cfg),
            self.spec_f32(),
            old(cache).wf(),
            old(cache).config() == *cfg,
            tensor_dims(*x) == seq![1usize, s, cfg.dim],
            dense(*x),
            s >= 1,
            index_pos + s <= cfg.seq_len,
            block_idx < cfg.n_layers,
            old(cache).layer_len(block_idx as int) + s <= cfg.seq_len,
            s == 1 || old(cache).layer_len(block_idx as int) == 0,
        ensures
            final(cache).wf(),
            final(cache).config() == *cfg,
            final(cache).caching() == old(cache).caching(),
            forall|i: int|
                0 <= i < cfg.n_layers && i != block_idx ==> #[trigger] final(cache).entry(i) == old(cache).entry(i),
            tensor_dims(out) == seq![1usize, s, cfg.dim],
            dense(out),
            final(cache).layer_len(block_idx as int) == (if old(cache).caching() {
                old(cache).layer_len(block_idx as int) + s
            } else {
                0
            }),
            kv_entry_extends(old(cache).entry(block_idx as int), final(cache).entry(block_idx as int)),
    {
        proof {
            cache.lemma_wf();
            lemma_bounds(*cfg, s, s, cfg.n_heads);
            lemma_numel_3(1, s, cfg.dim);
            assert(tensor_is_f32(self.part(LayerPart::InputNorm)));
            assert(tensor_is_f32(self.part(LayerPart::PostAttentionNorm)));
            assert(tensor_is_f32(self.part(LayerPart::Query)));
            assert(tensor_is_f32(self.part(LayerPart::Key)));
            assert(tensor_is_f32(self.part(LayerPart::Value)));
            assert(tensor_is_f32(self.part(LayerPart::Output)));
            assert(tensor_is_f32(self.part(LayerPart::Gate)));
            assert(tensor_is_f32(self.part(LayerPart::Up)));
            assert(tensor_is_f32(self.part(LayerPart::Down)));
        }
        let normed = normalise(x, &self.rms_1, cfg.norm_eps_bits, s, cfg.dim);
        let attended = self.attn.forward(&normed, index_pos, block_idx, s, cache, Ghost(*cfg));
        let x = add_same(&attended, x).unwrap();
        let x = contiguous(&x).unwrap();
        let normed = normalise(&x, &self.rms_2, cfg.norm_eps_bits, s, cfg.dim);
        let fed = self.mlp.forward(&normed, s, cfg.dim, cfg.hidden_dim, Ghost(*cfg));
        let x = add_same(&fed, &x).unwrap();
        contiguous(&x).unwrap()
    }
}

/// The model: its weights and hyperparameters.
pub struct Llama {
    wte: Tensor,
    blocks: Vec<Block>,
    ln_f: Tensor,
    lm_head: Tensor,
    config: Config,
}

impl Llama {
    /// The tensor that the model uses under a name it reads.
    pub closed spec fn weight(&self, name: TensorName) -> Tensor {
        match name {
            TensorName::EmbedTokens => self.wte,
            TensorName::LmHead => self.lm_head,
            TensorName::Layer(layer, part) => self.blocks@[layer as int].part(part),
            _ => self.ln_f,
        }
    }

    /// The hyperparameters of the model.
    pub closed spec fn spec_config(&self) -> Config {
        self.config
    }

    /// The invariant of the model: every tensor has the shape that the
    /// configuration demands.
    pub closed spec fn wf(&self) -> bool {
        &&& self.config.wf()
        &&& tensor_dims(self.wte) == seq![self.config.vocab_size, self.config.dim]
        &&& tensor_dims(self.lm_head) == seq![self.config.vocab_size, self.config.dim]
        &&& tensor_dims(self.ln_f) == seq![self.config.dim]
        &&& self.blocks@.len() == self.config.n_layers
        &&& forall|i: int| 0 <= i < self.blocks@.len() ==> (#[trigger] self.blocks@[i]).wf(self.config)
        &&& self.spec_f32()
    }

    spec fn spec_f32(&self) -> bool {
        &&& tensor_is_f32(self.wte)
        &&& tensor_is_f32(self.lm_head)
        &&& tensor_is_f32(self.ln_f)
        &&& forall|i: int| 0 <= i < self.blocks@.len() ==> (#[trigger] self.blocks@[i]).spec_f32()
    }

    /// The tensors hold 32-bit floats exactly when every tensor that the
    /// model reads does.
    proof fn lemma_f32(&self)
        requires
            self.blocks@.len() == self.config.n_layers,
        ensures
            self.spec_f32() <==> forall|name: TensorName|
                needed(self.config, name) ==> tensor_is_f32(#[trigger] self.weight(name)),
    {
        let c = self.config;
        if self.spec_f32() {
            assert forall|name: TensorName| needed(c, name) implies tensor_is_f32(
                #[trigger] self.weight(name),
            ) by {
                match name {
                    TensorName::Layer(layer, part) => {
                        assert(self.blocks@[layer as int].spec_f32());
                        assert(tensor_is_f32(self.blocks@[layer as int].part(part)));
                    },
                    _ => {},
                }
            }
        }
        if forall|name: TensorName|
            needed(c, name) ==> tensor_is_f32(#[trigger] self.weight(name)) {
            assert(needed(c, TensorName::EmbedTokens) && needed(c, TensorName::LmHead) && needed(
                c,
                TensorName::FinalNorm,
            ));
            assert(tensor_is_f32(self.weight(TensorName::EmbedTokens)));
            assert(tensor_is_f32(self.weight(TensorName::LmHead)));
            assert(tensor_is_f32(self.weight(TensorName::FinalNorm)));
            assert forall|i: int| 0 <= i < self.blocks@.len() implies (
            #[trigger] self.blocks@[i]).spec_f32() by {
                assert forall|part: LayerPart| tensor_is_f32(
                    #[trigger] self.blocks@[i].part(part),
                ) by {
                    assert(needed(c, TensorName::Layer(i as usize, part)));
                    assert(tensor_is_f32(self.weight(TensorName::Layer(i as usize, part))));
                }
            }
        }
    }

    /// Whether every tensor of the model holds 32-bit floats.
    fn holds_f32(&self) -> (r: bool)
        ensures
            r == self.spec_f32(),
    {
        if !(is_f32(&self.wte) && is_f32(&self.lm_head) && is_f32(&self.ln_f)) {
            return false;
        }
        let mut i: usize = 0;
        while i < self.blocks.len()
            invariant
                0 <= i <= self.blocks@.len(),
                forall|j: int| 0 <= j < i ==> (#[trigger] self.blocks@[j]).spec_f32(),
            decreases self.blocks@.len() - i,
        {
            if !self.blocks[i].holds_f32() {
                return false;
            }
            i += 1;
        }
        true
    }

    /// What the invariant says to the outside: the configuration is
    /// well-formed and every tensor that the model reads has its shape.
    pub proof fn lemma_wf(&self)
        requires
            self.wf(),
        ensures
            self.spec_config().wf(),
            forall|name: TensorName|
                needed(self.spec_config(), name) ==> #[trigger] tensor_dims(self.weight(name))
                    == expected_shape(self.spec_config(), name) && tensor_is_f32(self.weight(name)),
    {
        let c = self.config;
        self.lemma_f32();
        assert forall|name: TensorName| needed(c, name) implies #[trigger] tensor_dims(
            self.weight(name),
        ) == expected_shape(c, name) && tensor_is_f32(self.weight(name)) by {
            match name {
                TensorName::Layer(layer, part) => {
                    assert(self.blocks@[layer as int].wf(c));
                },
                _ => {},
            }
        }
    }

    /// The hyperparameters of the model.
    pub fn get_config(&self) -> (c: Config)
        ensures
            c == self.spec_config(),
    {
        self.config
    }

    /// Builds the model from a weight map.  It succeeds exactly when the
    /// configuration is well-formed and the map binds every tensor that the
    /// model reads to 32-bit floats of the shape that the configuration
    /// demands; the model then uses those very tensors.  A tensor of another
    /// element type is unsupported; what else is amiss is a mismatch of the
    /// architecture.
    pub fn load(weights: &WeightMap, cfg: Config) -> (r: Result<Llama, EngineError>)
        ensures
            r is Ok <==> cfg.wf() && complete(*weights, cfg) && all_f32(*weights, cfg),
            match r {
                Ok(m) => {
                    &&& m.wf()
                    &&& m.spec_config() == cfg
                    &&& forall|name: TensorName|
                        needed(cfg, name) ==> #[trigger] weights.spec_get(name) == Some(
                            m.weight(name),
                        )
                },
                Err(e) => e == (if cfg.wf() && complete(*weights, cfg) {
                    EngineError::UnsupportedDtype
                } else {
                    EngineError::ArchitectureMismatch
                }),
            },
    {
        if !cfg.validate() {
            return Err(EngineError::ArchitectureMismatch);
        }
        let wte = match fetch(weights, TensorName::EmbedTokens, &cfg) {
            Some(t) => t,
            None => {
                assert(needed(cfg, TensorName::EmbedTokens));
                return Err(EngineError::ArchitectureMismatch);
            },
        };
        let lm_head = match fetch(weights, TensorName::LmHead, &cfg) {
            Some(t) => t,
            None => {
                assert(needed(cfg, TensorName::LmHead));
                return Err(EngineError::ArchitectureMismatch);
            },
        };
        let ln_f = match fetch(weights, TensorName::FinalNorm, &cfg) {
            Some(t) => t,
            None => {
                assert(needed(cfg, TensorName::FinalNorm));
                return Err(EngineError::ArchitectureMismatch);
            },
        };
        let mut blocks: Vec<Block> = Vec::new();
        let mut i: usize = 0;
        while i < cfg.n_layers
            invariant
                0 <= i <= cfg.n_layers,
                cfg.wf(),
                blocks@.len() == i,
                forall|j: int| 0 <= j < i ==> (#[trigger] blocks@[j]).wf(cfg),
                forall|j: int, part: LayerPart|
                    0 <= j < i ==> #[trigger] weights.spec_get(TensorName::Layer(j as usize, part))
                        == Some(blocks@[j].part(part)),
            decreases cfg.n_layers - i,
        {
            let block = match Block::load(weights, i, &cfg) {
                Some(b) => b,
                None => {
                    proof {
                        let part = choose|part: LayerPart|
                            !(#[trigger] weights.spec_get(TensorName::Layer(i, part)) matches Some(
                                t,
                            ) && tensor_dims(t) == expected_shape(cfg, TensorName::Layer(i, part)));
                        assert(needed(cfg, TensorName::Layer(i, part)));
                    }
                    return Err(EngineError::ArchitectureMismatch);
                },
            };
            blocks.push(block);
            i += 1;
        }
        let m = Llama { wte, blocks, ln_f, lm_head, config: cfg };
        proof {
            assert forall|name: TensorName| needed(cfg, name) implies #[trigger] weights.spec_get(
                name,
            ) == Some(m.weight(name)) by {
                match name {
                    TensorName::Layer(layer, part) => {
                        assert(weights.spec_get(TensorName::Layer(layer as int as usize, part))
                            == Some(m.blocks@[layer as int].part(part)));
                    },
                    _ => {},
                }
            }
            assert forall|name: TensorName| needed(cfg, name) implies (
            #[trigger] weights.spec_get(name) matches Some(t) && tensor_dims(t) == expected_shape(
                cfg,
                name,
            )) by {
                match name {
                    TensorName::Layer(layer, part) => {
                        assert(m.blocks@[layer as int].wf(cfg));
                        assert(weights.spec_get(TensorName::Layer(layer as int as usize, part))
                            == Some(m.blocks@[layer as int].part(part)));
                    },
                    _ => {},
                }
            }
            m.lemma_f32();
            if m.spec_f32() {
                assert forall|name: TensorName| needed(cfg, name) implies (
                #[trigger] weights.spec_get(name) matches Some(t) ==> tensor_is_f32(t)) by {
                    assert(tensor_is_f32(m.weight(name)));
                }
            } else {
                let bad = choose|name: TensorName|
                    needed(cfg, name) && !tensor_is_f32(#[trigger] m.weight(name));
                assert(weights.spec_get(bad) == Some(m.weight(bad)));
            }
        }
        if !m.holds_f32() {
            return Err(EngineError::UnsupportedDtype);
        }
        Ok(m)
    }

    /// Whether a forward pass over `count` tokens at `index_pos` would leave
    /// the context window, in the positions it encodes or in what a layer of
    /// the cache would hold afterwards.
    pub open spec fn overflows(&self, cache: Cache, index_pos: usize, count: nat) -> bool {
        ||| index_pos + count > self.spec_config().seq_len
        ||| exists|layer: int|
            0 <= layer < self.spec_config().n_layers && #[trigger] cache.layer_len(layer) + count
                > self.spec_config().seq_len
    }

    /// A layer that holds positions which the new tokens would carry beyond
    /// the context window makes the pass overflow, whatever the position
    /// offset: a cached length never exceeds the context length.
    pub proof fn lemma_full_cache_overflows(
        &self,
        cache: Cache,
        index_pos: usize,
        count: nat,
        layer: int,
    )
        requires
            0 <= layer < self.spec_config().n_layers,
            cache.layer_len(layer) + count > self.spec_config().seq_len,
        ensures
            self.overflows(cache, index_pos, count),
    {
    }

    /// Whether a forward pass over `tokens` is refused although it fits: a
    /// token lies outside the vocabulary, or more than one token comes on
    /// top of cached positions, where the causal mask, which covers the new
    /// positions only, does not reach.
    pub open spec fn refuses(&self, cache: Cache, tokens: Seq<u32>) -> bool {
        ||| exists|i: int| 0 <= i < tokens.len() && #[trigger] tokens[i] >= self.spec_config().vocab_size
        ||| tokens.len() > 1 && exists|layer: int|
            0 <= layer < self.spec_config().n_layers && #[trigger] cache.layer_len(layer) > 0
    }

    /// Runs the model over `tokens`, which sit at positions `index_pos` and
    /// up, and returns the logits over the vocabulary for the last of them,
    /// as 32-bit floats.  With caching on, every layer of the cache grows by
    /// the number of tokens and keeps the keys and values it held in front of
    /// the new ones.  A pass that would leave the context window
    /// fails at once, and so does one that is refused; both leave the cache
    /// as it was.  Every other pass succeeds.
    pub fn forward(&self, tokens: &[u32], index_pos: usize, cache: &mut Cache) -> (r: Result<
        Tensor,
        EngineError,
    >)
        requires
            self.wf(),
            old(cache).wf(),
            old(cache).config() == self.spec_config(),
            tokens@.len() >= 1,
        ensures
            final(cache).wf(),
            final(cache).config() == old(cache).config(),
            final(cache).caching() == old(cache).caching(),
            self.overflows(*old(cache), index_pos, tokens@.len()) ==> r == Err::<
                Tensor,
                EngineError,
            >(EngineError::ContextOverflow) && *final(cache) == *old(cache),
            !self.overflows(*old(cache), index_pos, tokens@.len()) && self.refuses(
                *old(cache),
                tokens@,
            ) ==> r == Err::<Tensor, EngineError>(EngineError::NumericBackendError) && *final(cache)
                == *old(cache),
            !self.overflows(*old(cache), index_pos, tokens@.len()) && !self.refuses(
                *old(cache),
                tokens@,
            ) ==> (r matches Ok(logits) && {
                &&& tensor_dims(logits) == seq![self.spec_config().vocab_size]
                &&& dense(logits)
                &&& forall|layer: int|
                    0 <= layer < self.spec_config().n_layers ==> #[trigger] final(cache).layer_len(
                        layer,
                    ) == (if old(cache).caching() {
                        old(cache).layer_len(layer) + tokens@.len()
                    } else {
                        0
                    })
                &&& forall|layer: int|
                    0 <= layer < self.spec_config().n_layers ==> kv_entry_extends(
                        old(cache).entry(layer),
                        #[trigger] final(cache).entry(layer),
                    )
            }),
    {
        let s = tokens.len();
        let cfg = self.config;
        let longest = cache.max_len();
        proof {
            cache.lemma_wf();
        }
        if s > cfg.seq_len || index_pos > cfg.seq_len - s || longest > cfg.seq_len - s {
            return Err(EngineError::ContextOverflow);
        }
        if s > 1 && longest > 0 {
            return Err(EngineError::NumericBackendError);
        }
        if !all_below(tokens, cfg.vocab_size) {
            return Err(EngineError::NumericBackendError);
        }
        proof {
            lemma_bounds(cfg, s, s, cfg.n_heads);
            lemma_numel_1(s);
            lemma_numel_2(1, s);
            lemma_numel_2(cfg.vocab_size, cfg.dim);
            lemma_numel_3(1, s, cfg.dim);
            assert(1 * s == s) by (nonlinear_arith);
            assert(seq![1usize, s].push(cfg.dim) =~= seq![1usize, s, cfg.dim]);
        }
        let ids = u32_tensor(tokens).unwrap();
        let batch = dims2(1, s);
        let ids = reshape(&ids, batch.as_slice()).unwrap();
        let table = contiguous(&self.wte).unwrap();
        let mut x = embedding(&table, cfg.dim, &ids).unwrap();
        let mut i: usize = 0;
        while i < self.blocks.len()
            invariant
                0 <= i <= self.blocks@.len(),
                self.wf(),
                cfg == self.config,
                cache.wf(),
                cache.config() == cfg,
                old(cache).config() == cfg,
                cache.caching() == old(cache).caching(),
                s == tokens@.len(),
                s >= 1,
                index_pos + s <= cfg.seq_len,
                tensor_dims(x) == seq![1usize, s, cfg.dim],
                dense(x),
                forall|layer: int|
                    0 <= layer < cfg.n_layers ==> #[trigger] old(cache).layer_len(layer) + s
                        <= cfg.seq_len,
                s == 1 || forall|layer: int|
                    0 <= layer < cfg.n_layers ==> #[trigger] old(cache).layer_len(layer) == 0,
                forall|layer: int|
                    0 <= layer < i ==> #[trigger] cache.layer_len(layer) == (if old(cache).caching() {
                        old(cache).layer_len(layer) + s
                    } else {
                        0
                    }),
                forall|layer: int|
                    i <= layer < cfg.n_layers ==> #[trigger] cache.entry(layer) == old(cache).entry(
                        layer,
                    ),
                forall|layer: int|
                    0 <= layer < i ==> kv_entry_extends(
                        old(cache).entry(layer),
                        #[trigger] cache.entry(layer),
                    ),
            decreases self.blocks@.len() - i,
        {
            assert(self.blocks@[i as int].wf(cfg));
            assert(self.blocks@[i as int].spec_f32());
            assert(cache.entry(i as int) == old(cache).entry(i as int));
            assert(old(cache).layer_len(i as int) + s <= cfg.seq_len);
            assert(cache.layer_len(i as int) == old(cache).layer_len(i as int));
            let ghost before = *cache;
            x = self.blocks[i].forward(&x, index_pos, i, s, cache, &cfg);
            proof {
                assert forall|layer: int| 0 <= layer < i implies #[trigger] cache.layer_len(layer)
                    == (if old(cache).caching() {
                    old(cache).layer_len(layer) + s
                } else {
                    0
                }) by {
                    assert(cache.entry(layer) == before.entry(layer));
                    assert(before.layer_len(layer) == (if old(cache).caching() {
                        old(cache).layer_len(layer) + s
                    } else {
                        0
                    }));
                }
                assert forall|layer: int| i < layer < cfg.n_layers implies #[trigger] cache.entry(
                    layer,
                ) == old(cache).entry(layer) by {
                    assert(cache.entry(layer) == before.entry(layer));
                }
            }
            i += 1;
        }
        let x = normalise(&x, &self.ln_f, cfg.norm_eps_bits, s, cfg.dim);
        proof {
            assert(seq![1usize, s, cfg.dim].update(1, 1usize) =~= seq![1usize, 1usize, cfg.dim]);
            lemma_numel_3(1, 1, cfg.vocab_size);
            lemma_numel_3(1, 1, cfg.dim);
            lemma_numel_1(cfg.vocab_size);
            assert(1 * (1 * cfg.dim) == cfg.dim && 1 * (1 * cfg.vocab_size) == cfg.vocab_size)
                by (nonlinear_arith);
        }
        let last = narrow(&x, 1, s - 1, 1).unwrap();
        let last = contiguous(&last).unwrap();
        let logits = project(&last, &self.lm_head, 1, cfg.dim, cfg.vocab_size);
        let logits = to_float(&logits).unwrap();
        let flat = dims1(cfg.vocab_size);
        Ok(view(&logits, &flat))
    }
}

} // verus!
