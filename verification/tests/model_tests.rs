use candle_core::{Device, Tensor};
use chat_inference::cache::Cache;
use chat_inference::config::{Config, NORM_EPS_BITS};
use chat_inference::error::EngineError;
use chat_inference::model::{repeat_kv, Llama};
use chat_inference::weight_map::{LayerPart, TensorName, WeightMap};

fn small_config(n_kv_heads: usize) -> Config {
    Config {
        dim: 8,
        hidden_dim: 16,
        n_layers: 2,
        n_heads: 4,
        n_kv_heads,
        vocab_size: 10,
        seq_len: 16,
        norm_eps_bits: NORM_EPS_BITS,
    }
}

fn filled(rows: usize, cols: usize, seed: u32) -> Tensor {
    let mut state = seed.wrapping_mul(2654435761).wrapping_add(12345);
    let mut data = Vec::with_capacity(rows * cols);
    for _ in 0..rows * cols {
        state = state.wrapping_mul(1664525).wrapping_add(1013904223);
        data.push(((state >> 8) % 2000) as f32 / 1000.0 - 1.0);
    }
    Tensor::from_vec(data, (rows, cols), &Device::Cpu).unwrap()
}

fn ones(n: usize) -> Tensor {
    Tensor::from_vec(vec![1f32; n], n, &Device::Cpu).unwrap()
}

fn small_weights(c: &Config) -> WeightMap {
    let kv = c.dim / c.n_heads * c.n_kv_heads;
    let mut w = WeightMap::new();
    w.insert(TensorName::EmbedTokens, filled(c.vocab_size, c.dim, 1));
    w.insert(TensorName::LmHead, filled(c.vocab_size, c.dim, 2));
    w.insert(TensorName::FinalNorm, ones(c.dim));
    for layer in 0..c.n_layers {
        let s = 10 * (layer as u32 + 1);
        w.insert(TensorName::Layer(layer, LayerPart::Query), filled(c.dim, c.dim, s + 1));
        w.insert(TensorName::Layer(layer, LayerPart::Key), filled(kv, c.dim, s + 2));
        w.insert(TensorName::Layer(layer, LayerPart::Value), filled(kv, c.dim, s + 3));
        w.insert(TensorName::Layer(layer, LayerPart::Output), filled(c.dim, c.dim, s + 4));
        w.insert(TensorName::Layer(layer, LayerPart::Gate), filled(c.hidden_dim, c.dim, s + 5));
        w.insert(TensorName::Layer(layer, LayerPart::Up), filled(c.hidden_dim, c.dim, s + 6));
        w.insert(TensorName::Layer(layer, LayerPart::Down), filled(c.dim, c.hidden_dim, s + 7));
        w.insert(TensorName::Layer(layer, LayerPart::InputNorm), ones(c.dim));
        w.insert(TensorName::Layer(layer, LayerPart::PostAttentionNorm), ones(c.dim));
    }
    w
}

#[test]
fn forward_returns_one_logit_per_vocabulary_entry() {
    let c = small_config(2);
    let w = small_weights(&c);
    let model = Llama::load(&w, c).unwrap();
    let mut cache = Cache::new(true, &c, &w).unwrap();
    let logits = model.forward(&[1, 2, 3], 0, &mut cache).unwrap();
    assert_eq!(logits.dims(), &[10]);
    let values = logits.to_vec1::<f32>().unwrap();
    assert!(values.iter().all(|v| v.is_finite()));
}

#[test]
fn cache_grows_by_the_tokens_of_each_pass() {
    let c = small_config(2);
    let w = small_weights(&c);
    let model = Llama::load(&w, c).unwrap();
    let mut cache = Cache::new(true, &c, &w).unwrap();
    model.forward(&[1, 2, 3], 0, &mut cache).unwrap();
    for layer in 0..c.n_layers {
        let (k, v) = cache.get(layer).unwrap();
        assert_eq!(k.dims(), &[1, 3, 2, 2]);
        assert_eq!(v.dims(), &[1, 3, 2, 2]);
    }
    model.forward(&[4], 3, &mut cache).unwrap();
    model.forward(&[5], 4, &mut cache).unwrap();
    for layer in 0..c.n_layers {
        let (k, _) = cache.get(layer).unwrap();
        assert_eq!(k.dims(), &[1, 5, 2, 2]);
    }
    assert_eq!(cache.max_len(), 5);
}

#[test]
fn forward_fails_fast_past_the_context_window() {
    let c = small_config(2);
    let w = small_weights(&c);
    let model = Llama::load(&w, c).unwrap();
    let mut cache = Cache::new(true, &c, &w).unwrap();
    let prompt: Vec<u32> = (0..16).map(|i| i % 10).collect();
    model.forward(&prompt, 0, &mut cache).unwrap();
    let r = model.forward(&[1], 16, &mut cache);
    assert_eq!(r.err(), Some(EngineError::ContextOverflow));
    assert_eq!(cache.max_len(), 16);
    let too_long: Vec<u32> = vec![0; 17];
    let mut fresh = Cache::new(true, &c, &w).unwrap();
    assert_eq!(model.forward(&too_long, 0, &mut fresh).err(), Some(EngineError::ContextOverflow));
    assert_eq!(fresh.max_len(), 0);
}

#[test]
fn cached_steps_match_a_full_pass() {
    let c = small_config(2);
    let w = small_weights(&c);
    let model = Llama::load(&w, c).unwrap();
    let mut stepwise = Cache::new(true, &c, &w).unwrap();
    model.forward(&[1, 2, 3], 0, &mut stepwise).unwrap();
    let a = model.forward(&[4], 3, &mut stepwise).unwrap().to_vec1::<f32>().unwrap();
    let mut whole = Cache::new(false, &c, &w).unwrap();
    let b = model.forward(&[1, 2, 3, 4], 0, &mut whole).unwrap().to_vec1::<f32>().unwrap();
    for (x, y) in a.iter().zip(b.iter()) {
        assert!((x - y).abs() < 1e-4, "{x} vs {y}");
    }
    assert!(whole.get(0).is_none());
}

#[test]
fn load_rejects_a_missing_or_misshapen_tensor() {
    let c = small_config(2);
    let mut w = small_weights(&c);
    assert!(Llama::load(&w, c).is_ok());
    w.insert(TensorName::Layer(1, LayerPart::Key), filled(8, 8, 3));
    assert_eq!(Llama::load(&w, c).err(), Some(EngineError::ArchitectureMismatch));
    let empty = WeightMap::new();
    assert_eq!(Llama::load(&empty, c).err(), Some(EngineError::ArchitectureMismatch));
    let mut bad = c;
    bad.n_kv_heads = 3;
    assert_eq!(
        Llama::load(&small_weights(&c), bad).err(),
        Some(EngineError::ArchitectureMismatch)
    );
}

fn rows_of(t: &Tensor) -> Vec<Vec<f32>> {
    t.to_vec2::<f32>().unwrap()
}

#[test]
fn grouped_queries_match_a_model_with_duplicated_key_value_heads() {
    let grouped = Config {
        dim: 16,
        hidden_dim: 24,
        n_layers: 2,
        n_heads: 8,
        n_kv_heads: 2,
        vocab_size: 10,
        seq_len: 16,
        norm_eps_bits: NORM_EPS_BITS,
    };
    let mut full = grouped;
    full.n_kv_heads = 8;
    let head = grouped.head_size();
    assert_eq!(head, 2);
    assert_eq!(grouped.repeat_factor(), 4);
    let w = small_weights(&grouped);
    let mut reference = small_weights(&grouped);
    for layer in 0..grouped.n_layers {
        for part in [LayerPart::Key, LayerPart::Value] {
            let shared = rows_of(&w.get(TensorName::Layer(layer, part)).unwrap());
            assert_eq!(shared.len(), grouped.n_kv_heads * head);
            let mut data = Vec::new();
            for q in 0..grouped.n_heads {
                let h = grouped.kv_head_of(q);
                assert_eq!(h, if q < 4 { 0 } else { 1 });
                for r in 0..head {
                    data.extend_from_slice(&shared[h * head + r]);
                }
            }
            let t = Tensor::from_vec(data, (grouped.dim, grouped.dim), &Device::Cpu).unwrap();
            reference.insert(TensorName::Layer(layer, part), t);
        }
    }
    let a = Llama::load(&w, grouped).unwrap();
    let b = Llama::load(&reference, full).unwrap();
    let mut cache_a = Cache::new(true, &grouped, &w).unwrap();
    let mut cache_b = Cache::new(true, &full, &reference).unwrap();
    for (tokens, pos) in [(vec![3u32, 1, 4, 1, 5], 0usize), (vec![9], 5), (vec![2], 6)] {
        let x = a.forward(&tokens, pos, &mut cache_a).unwrap().to_vec1::<f32>().unwrap();
        let y = b.forward(&tokens, pos, &mut cache_b).unwrap().to_vec1::<f32>().unwrap();
        assert_eq!(x.len(), 10);
        for (p, q) in x.iter().zip(y.iter()) {
            assert!((p - q).abs() < 1e-4, "{p} vs {q}");
        }
    }
    let (k, _) = cache_a.get(0).unwrap();
    assert_eq!(k.dims(), &[1, 7, 2, 2]);
    let (k, _) = cache_b.get(0).unwrap();
    assert_eq!(k.dims(), &[1, 7, 8, 2]);
}

#[test]
fn a_single_token_attends_without_a_mask() {
    let c = small_config(4);
    let w = small_weights(&c);
    let model = Llama::load(&w, c).unwrap();
    let mut cache = Cache::new(true, &c, &w).unwrap();
    let first = model.forward(&[7], 0, &mut cache).unwrap().to_vec1::<f32>().unwrap();
    let mut other = Cache::new(false, &c, &w).unwrap();
    let again = model.forward(&[7], 0, &mut other).unwrap().to_vec1::<f32>().unwrap();
    assert_eq!(first, again);
    assert_eq!(model.get_config(), c);
}

#[test]
fn a_prompt_in_two_parts_is_refused_by_the_backend() {
    let c = small_config(2);
    let w = small_weights(&c);
    let model = Llama::load(&w, c).unwrap();
    let mut cache = Cache::new(true, &c, &w).unwrap();
    model.forward(&[1, 2], 0, &mut cache).unwrap();
    let r = model.forward(&[3, 4], 2, &mut cache);
    assert_eq!(r.err(), Some(EngineError::NumericBackendError));
    assert_eq!(cache.max_len(), 2);
    assert!(model.forward(&[3], 2, &mut cache).is_ok());
    assert_eq!(cache.max_len(), 3);
}

#[test]
fn load_refuses_weights_that_are_no_32_bit_floats() {
    let c = small_config(2);
    let mut w = small_weights(&c);
    let doubles = Tensor::zeros((c.dim, c.dim), candle_core::DType::F64, &Device::Cpu).unwrap();
    w.insert(TensorName::Layer(0, LayerPart::Output), doubles);
    assert_eq!(Llama::load(&w, c).err(), Some(EngineError::UnsupportedDtype));
    let mut w = small_weights(&c);
    let bytes = Tensor::zeros(c.dim, candle_core::DType::U8, &Device::Cpu).unwrap();
    w.insert(TensorName::FinalNorm, bytes);
    assert_eq!(Llama::load(&w, c).err(), Some(EngineError::UnsupportedDtype));
    w.insert(TensorName::EmbedTokens, filled(3, 3, 1));
    assert_eq!(Llama::load(&w, c).err(), Some(EngineError::ArchitectureMismatch));
}

#[test]
fn tensor_names_have_the_paths_of_weight_files() {
    assert_eq!(TensorName::EmbedTokens.path(), "model.embed_tokens.weight");
    assert_eq!(TensorName::LmHead.path(), "lm_head.weight");
    assert_eq!(TensorName::FinalNorm.path(), "model.norm.weight");
    assert_eq!(TensorName::RotaryReal.path(), "rot.freq_cis_real");
    assert_eq!(TensorName::RotaryImag.path(), "rot.freq_cis_imag");
    let layer = |n, part| TensorName::Layer(n, part).path();
    assert_eq!(layer(0, LayerPart::Query), "model.layers.0.self_attn.q_proj.weight");
    assert_eq!(layer(7, LayerPart::Key), "model.layers.7.self_attn.k_proj.weight");
    assert_eq!(layer(10, LayerPart::Value), "model.layers.10.self_attn.v_proj.weight");
    assert_eq!(layer(31, LayerPart::Output), "model.layers.31.self_attn.o_proj.weight");
    assert_eq!(layer(109, LayerPart::Gate), "model.layers.109.mlp.gate_proj.weight");
    assert_eq!(layer(1000, LayerPart::Up), "model.layers.1000.mlp.up_proj.weight");
    assert_eq!(layer(5, LayerPart::Down), "model.layers.5.mlp.down_proj.weight");
    assert_eq!(layer(5, LayerPart::InputNorm), "model.layers.5.input_layernorm.weight");
    assert_eq!(
        layer(usize::MAX, LayerPart::PostAttentionNorm),
        format!("model.layers.{}.post_attention_layernorm.weight", usize::MAX)
    );
}

#[test]
fn a_token_outside_the_vocabulary_is_refused_by_the_backend() {
    let c = small_config(2);
    let w = small_weights(&c);
    let model = Llama::load(&w, c).unwrap();
    let mut cache = Cache::new(true, &c, &w).unwrap();
    assert_eq!(model.forward(&[10], 0, &mut cache).err(), Some(EngineError::NumericBackendError));
    assert_eq!(
        model.forward(&[1, u32::MAX - 1], 0, &mut cache).err(),
        Some(EngineError::NumericBackendError)
    );
    assert_eq!(
        model.forward(&[u32::MAX], 0, &mut cache).err(),
        Some(EngineError::NumericBackendError)
    );
    assert_eq!(cache.max_len(), 0);
    assert!(model.forward(&[9], 0, &mut cache).is_ok());
}

#[test]
fn two_key_value_heads_are_repeated_four_times_each_in_a_row() {
    let x = Tensor::from_vec(vec![10f32, 20.], (1, 1, 2, 1), &Device::Cpu).unwrap();
    let y = repeat_kv(x, 1, 2, 4, 1);
    assert_eq!(y.dims(), &[1, 1, 8, 1]);
    assert_eq!(
        y.flatten_all().unwrap().to_vec1::<f32>().unwrap(),
        vec![10., 10., 10., 10., 20., 20., 20., 20.]
    );
}

#[test]
fn every_query_head_reads_the_key_value_head_of_its_group() {
    let (t, n_kv, rep, width) = (3usize, 2usize, 3usize, 2usize);
    let data: Vec<f32> = (0..t * n_kv * width).map(|i| i as f32).collect();
    let x = Tensor::from_vec(data.clone(), (1, t, n_kv, width), &Device::Cpu).unwrap();
    let y = repeat_kv(x.clone(), t, n_kv, rep, width);
    assert_eq!(y.dims(), &[1, t, n_kv * rep, width]);
    let got = y.flatten_all().unwrap().to_vec1::<f32>().unwrap();
    for p in 0..t {
        for q in 0..n_kv * rep {
            for i in 0..width {
                let from = (p * n_kv + q / rep) * width + i;
                assert_eq!(got[(p * n_kv * rep + q) * width + i], data[from]);
            }
        }
    }
    let same = repeat_kv(x, t, n_kv, 1, width);
    assert_eq!(same.flatten_all().unwrap().to_vec1::<f32>().unwrap(), data);
}
