use candle_core::{Device, Tensor};
use chat_inference::cache::Cache;
use chat_inference::config::{Config, NORM_EPS_BITS};
use chat_inference::model::Llama;
use chat_inference::weight_map::{LayerPart, TensorName, WeightMap};

struct Plain {
    config: Config,
    embed: Vec<f32>,
    head: Vec<f32>,
    norm: Vec<f32>,
    layers: Vec<Vec<Vec<f32>>>,
}

const ORDER: [LayerPart; 9] = [
    LayerPart::Query,
    LayerPart::Key,
    LayerPart::Value,
    LayerPart::Output,
    LayerPart::Gate,
    LayerPart::Up,
    LayerPart::Down,
    LayerPart::InputNorm,
    LayerPart::PostAttentionNorm,
];

fn shape_of(c: &Config, part: LayerPart) -> (usize, usize) {
    let kv = c.dim / c.n_heads * c.n_kv_heads;
    match part {
        LayerPart::Query | LayerPart::Output => (c.dim, c.dim),
        LayerPart::Key | LayerPart::Value => (kv, c.dim),
        LayerPart::Gate | LayerPart::Up => (c.hidden_dim, c.dim),
        LayerPart::Down => (c.dim, c.hidden_dim),
        LayerPart::InputNorm | LayerPart::PostAttentionNorm => (1, c.dim),
    }
}

fn plain(c: Config) -> Plain {
    let mut state: u32 = 77;
    let mut draw = |n: usize, centre: f32| -> Vec<f32> {
        (0..n)
            .map(|_| {
                state = state.wrapping_mul(1664525).wrapping_add(1013904223);
                centre + (((state >> 9) % 2001) as f32 / 1000.0 - 1.0) * 0.5
            })
            .collect()
    };
    let embed = draw(c.vocab_size * c.dim, 0.0);
    let head = draw(c.vocab_size * c.dim, 0.0);
    let norm = draw(c.dim, 1.0);
    let mut layers = Vec::new();
    for _ in 0..c.n_layers {
        let mut parts = Vec::new();
        for part in ORDER {
            let (r, k) = shape_of(&c, part);
            let centre = if r == 1 { 1.0 } else { 0.0 };
            parts.push(draw(r * k, centre));
        }
        layers.push(parts);
    }
    Plain { config: c, embed, head, norm, layers }
}

fn tensor(data: &[f32], rows: usize, cols: usize) -> Tensor {
    if rows == 1 {
        Tensor::from_vec(data.to_vec(), cols, &Device::Cpu).unwrap()
    } else {
        Tensor::from_vec(data.to_vec(), (rows, cols), &Device::Cpu).unwrap()
    }
}

fn weight_map(p: &Plain) -> WeightMap {
    let c = &p.config;
    let mut w = WeightMap::new();
    w.insert(TensorName::EmbedTokens, tensor(&p.embed, c.vocab_size, c.dim));
    w.insert(TensorName::LmHead, tensor(&p.head, c.vocab_size, c.dim));
    w.insert(TensorName::FinalNorm, tensor(&p.norm, 1, c.dim));
    for (layer, parts) in p.layers.iter().enumerate() {
        for (k, part) in ORDER.iter().enumerate() {
            let (r, n) = shape_of(c, *part);
            w.insert(TensorName::Layer(layer, *part), tensor(&parts[k], r, n));
        }
    }
    w
}

fn times(w: &[f32], rows: usize, x: &[f32]) -> Vec<f32> {
    let cols = x.len();
    (0..rows).map(|o| (0..cols).map(|i| w[o * cols + i] * x[i]).sum()).collect()
}

fn rms(x: &[f32], w: &[f32]) -> Vec<f32> {
    let mean: f32 = x.iter().map(|v| v * v).sum::<f32>() / x.len() as f32;
    let scale = (mean + 1e-5).sqrt();
    x.iter().zip(w).map(|(v, g)| v / scale * g).collect()
}

fn rotate(x: &mut [f32], heads: usize, head: usize, position: usize) {
    for h in 0..heads {
        for i in 0..head / 2 {
            let angle = position as f32 / 10000f32.powf(2.0 * i as f32 / head as f32);
            let (a, b) = (x[h * head + 2 * i], x[h * head + 2 * i + 1]);
            x[h * head + 2 * i] = a * angle.cos() - b * angle.sin();
            x[h * head + 2 * i + 1] = a * angle.sin() + b * angle.cos();
        }
    }
}

fn reference(p: &Plain, tokens: &[u32]) -> Vec<f32> {
    let c = &p.config;
    let head = c.dim / c.n_heads;
    let kv = head * c.n_kv_heads;
    let rep = c.n_heads / c.n_kv_heads;
    let mut xs: Vec<Vec<f32>> = tokens
        .iter()
        .map(|t| p.embed[*t as usize * c.dim..(*t as usize + 1) * c.dim].to_vec())
        .collect();
    for parts in &p.layers {
        let mut qs = Vec::new();
        let mut ks = Vec::new();
        let mut vs = Vec::new();
        for (t, x) in xs.iter().enumerate() {
            let h = rms(x, &parts[7]);
            let mut q = times(&parts[0], c.dim, &h);
            let mut k = times(&parts[1], kv, &h);
            let v = times(&parts[2], kv, &h);
            rotate(&mut q, c.n_heads, head, t);
            rotate(&mut k, c.n_kv_heads, head, t);
            qs.push(q);
            ks.push(k);
            vs.push(v);
        }
        for t in 0..xs.len() {
            let mut mixed = vec![0f32; c.dim];
            for hq in 0..c.n_heads {
                let hk = hq / rep;
                let scores: Vec<f32> = (0..=t)
                    .map(|u| {
                        (0..head).map(|i| qs[t][hq * head + i] * ks[u][hk * head + i]).sum::<f32>()
                            / (head as f32).sqrt()
                    })
                    .collect();
                let top = scores.iter().cloned().fold(f32::NEG_INFINITY, f32::max);
                let weights: Vec<f32> = scores.iter().map(|s| (s - top).exp()).collect();
                let total: f32 = weights.iter().sum();
                for u in 0..=t {
                    for i in 0..head {
                        mixed[hq * head + i] += weights[u] / total * vs[u][hk * head + i];
                    }
                }
            }
            let y = times(&parts[3], c.dim, &mixed);
            for i in 0..c.dim {
                xs[t][i] += y[i];
            }
            let h = rms(&xs[t], &parts[8]);
            let first = times(&parts[4], c.hidden_dim, &h);
            let second = times(&parts[5], c.hidden_dim, &h);
            let gated: Vec<f32> =
                first.iter().zip(&second).map(|(g, u)| g / (1.0 + (-g).exp()) * u).collect();
            let m = times(&parts[6], c.dim, &gated);
            for i in 0..c.dim {
                xs[t][i] += m[i];
            }
        }
    }
    let last = rms(xs.last().unwrap(), &p.norm);
    times(&p.head, c.vocab_size, &last)
}

fn close(a: &[f32], b: &[f32]) {
    assert_eq!(a.len(), b.len());
    for (x, y) in a.iter().zip(b) {
        assert!((x - y).abs() <= 2e-3 * (1.0 + y.abs()), "{x} vs {y}");
    }
}

fn config(n_layers: usize, n_heads: usize, n_kv_heads: usize) -> Config {
    Config {
        dim: 16,
        hidden_dim: 20,
        n_layers,
        n_heads,
        n_kv_heads,
        vocab_size: 12,
        seq_len: 16,
        norm_eps_bits: NORM_EPS_BITS,
    }
}

#[test]
fn forward_matches_a_plain_computation() {
    for (layers, heads, kv_heads) in [(1, 4, 4), (2, 4, 2), (3, 8, 1), (0, 2, 2)] {
        let p = plain(config(layers, heads, kv_heads));
        let w = weight_map(&p);
        let model = Llama::load(&w, p.config).unwrap();
        let tokens = [3u32, 11, 0, 7, 7, 2];
        let mut cache = Cache::new(false, &p.config, &w).unwrap();
        let got = model.forward(&tokens, 0, &mut cache).unwrap().to_vec1::<f32>().unwrap();
        close(&got, &reference(&p, &tokens));
        let one = model.forward(&[5], 0, &mut cache).unwrap().to_vec1::<f32>().unwrap();
        close(&one, &reference(&p, &[5]));
    }
}

#[test]
fn cached_forward_matches_a_plain_computation_at_every_step() {
    let p = plain(config(2, 4, 2));
    let w = weight_map(&p);
    let model = Llama::load(&w, p.config).unwrap();
    let mut cache = Cache::new(true, &p.config, &w).unwrap();
    let tokens = [1u32, 9, 4, 4, 10, 6, 0];
    let got = model.forward(&tokens[..3], 0, &mut cache).unwrap().to_vec1::<f32>().unwrap();
    close(&got, &reference(&p, &tokens[..3]));
    for n in 3..tokens.len() {
        let got = model.forward(&tokens[n..n + 1], n, &mut cache).unwrap();
        close(&got.to_vec1::<f32>().unwrap(), &reference(&p, &tokens[..n + 1]));
        assert_eq!(cache.max_len(), n + 1);
    }
}
