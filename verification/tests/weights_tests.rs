use chat_inference::cache::Cache;
use chat_inference::config::{Config, HEADER_BYTES, NORM_EPS_BITS};
use chat_inference::error::EngineError;
use chat_inference::model::Llama;
use chat_inference::pipeline::{Engine, Family};
use chat_inference::weight_map::{LayerPart, TensorName};
use chat_inference::weights::{TransformerWeights, LEGACY_TENSORS};

fn config() -> Config {
    Config {
        dim: 8,
        hidden_dim: 12,
        n_layers: 2,
        n_heads: 2,
        n_kv_heads: 2,
        vocab_size: 5,
        seq_len: 6,
        norm_eps_bits: NORM_EPS_BITS,
    }
}

fn counts(c: &Config) -> Vec<usize> {
    let l = c.n_layers;
    let half = c.dim / c.n_heads / 2;
    vec![
        c.vocab_size * c.dim,
        l * c.dim,
        l * c.dim * c.dim,
        l * c.dim * c.dim,
        l * c.dim * c.dim,
        l * c.dim * c.dim,
        l * c.dim,
        l * c.hidden_dim * c.dim,
        l * c.hidden_dim * c.dim,
        l * c.dim * c.hidden_dim,
        c.dim,
        c.seq_len * half,
        c.seq_len * half,
    ]
}

fn body(c: &Config) -> (Vec<u8>, Vec<f32>) {
    let total: usize = counts(c).iter().sum();
    let values: Vec<f32> = (0..total).map(|i| (i % 97) as f32 * 0.01 - 0.4).collect();
    let mut bytes = Vec::with_capacity(4 * total);
    for v in &values {
        bytes.extend_from_slice(&v.to_le_bytes());
    }
    (bytes, values)
}

fn header(c: &Config) -> Vec<u8> {
    let mut bytes = Vec::new();
    for f in [c.dim, c.hidden_dim, c.n_layers, c.n_heads, c.n_kv_heads, c.vocab_size, c.seq_len] {
        bytes.extend_from_slice(&(f as i32).to_le_bytes());
    }
    bytes
}

#[test]
fn from_reader_gives_every_tensor_its_range_of_the_dump() {
    let c = config();
    let (bytes, values) = body(&c);
    let w = TransformerWeights::from_reader(&bytes, &c).unwrap();
    let n = counts(&c);
    assert_eq!(n.len(), LEGACY_TENSORS);
    let mut offset = 0;
    for k in 0..LEGACY_TENSORS {
        let t = w.get_tensor(k);
        assert_eq!(t.elem_count(), n[k]);
        let flat = t.flatten_all().unwrap().to_vec1::<f32>().unwrap();
        assert_eq!(flat, values[offset..offset + n[k]].to_vec());
        offset += n[k];
    }
    assert_eq!(w.get_tensor(0).dims(), &[5, 8]);
    assert_eq!(w.get_tensor(1).dims(), &[2, 8]);
    assert_eq!(w.get_tensor(2).dims(), &[2, 8, 8]);
    assert_eq!(w.get_tensor(7).dims(), &[2, 12, 8]);
    assert_eq!(w.get_tensor(8).dims(), &[2, 12, 8]);
    assert_eq!(w.get_tensor(9).dims(), &[2, 8, 12]);
    assert_eq!(w.get_tensor(10).dims(), &[8]);
    assert_eq!(w.get_tensor(11).dims(), &[6, 2]);
    assert_eq!(w.get_tensor(12).dims(), &[6, 2]);
}

#[test]
fn from_reader_reports_truncation_exactly_below_the_needed_length() {
    let c = config();
    let (bytes, _) = body(&c);
    assert!(TransformerWeights::from_reader(&bytes, &c).is_ok());
    let short = &bytes[..bytes.len() - 1];
    assert_eq!(TransformerWeights::from_reader(short, &c).err(), Some(EngineError::IoTruncated));
    assert_eq!(TransformerWeights::from_reader(&[], &c).err(), Some(EngineError::IoTruncated));
    let mut longer = bytes.clone();
    longer.extend_from_slice(&[0u8; 7]);
    assert!(TransformerWeights::from_reader(&longer, &c).is_ok());
}

#[test]
fn from_reader_refuses_a_configuration_that_breaks_the_invariant() {
    let mut c = config();
    let (bytes, _) = body(&c);
    c.n_heads = 0;
    assert_eq!(
        TransformerWeights::from_reader(&bytes, &c).err(),
        Some(EngineError::ArchitectureMismatch)
    );
}

#[test]
fn var_builder_cuts_the_stacked_tensors_into_layers() {
    let c = config();
    let (bytes, _) = body(&c);
    let w = TransformerWeights::from_reader(&bytes, &c).unwrap();
    let named = w.var_builder(&c).unwrap();
    let whole = |k: usize| w.get_tensor(k).flatten_all().unwrap().to_vec1::<f32>().unwrap();
    let flat = |name: TensorName| {
        named.get(name).unwrap().flatten_all().unwrap().to_vec1::<f32>().unwrap()
    };
    assert_eq!(flat(TensorName::EmbedTokens), whole(0));
    assert_eq!(flat(TensorName::LmHead), whole(0));
    assert_eq!(flat(TensorName::FinalNorm), whole(10));
    assert_eq!(flat(TensorName::RotaryReal), whole(11));
    assert_eq!(flat(TensorName::RotaryImag), whole(12));
    let parts = [
        (LayerPart::InputNorm, 1, vec![8]),
        (LayerPart::Query, 2, vec![8, 8]),
        (LayerPart::Key, 3, vec![8, 8]),
        (LayerPart::Value, 4, vec![8, 8]),
        (LayerPart::Output, 5, vec![8, 8]),
        (LayerPart::PostAttentionNorm, 6, vec![8]),
        (LayerPart::Gate, 7, vec![12, 8]),
        (LayerPart::Up, 8, vec![12, 8]),
        (LayerPart::Down, 9, vec![8, 12]),
    ];
    for layer in 0..c.n_layers {
        for (part, k, dims) in parts.iter() {
            let t = named.get(TensorName::Layer(layer, *part)).unwrap();
            assert_eq!(t.dims(), dims.as_slice());
            let stack = whole(*k);
            let width = stack.len() / c.n_layers;
            assert_eq!(flat(TensorName::Layer(layer, *part)), stack[layer * width..(layer + 1) * width]);
        }
    }
    assert!(named.get(TensorName::Layer(2, LayerPart::Query)).is_none());
}

#[test]
fn engine_loads_from_a_whole_dump() {
    let c = config();
    let mut bytes = header(&c);
    assert_eq!(bytes.len(), HEADER_BYTES);
    bytes.extend_from_slice(&body(&c).0);
    let mut engine = Engine::from_legacy_bytes(&bytes).unwrap();
    assert_eq!(engine.family(), Family::LlamaC);
    let logits = engine.forward(&vec![1, 2, 3], 0).unwrap();
    assert_eq!(logits.dims(), &[5]);
    assert_eq!(
        Engine::from_legacy_bytes(&bytes[..bytes.len() - 4]).err(),
        Some(EngineError::IoTruncated)
    );
    assert_eq!(Engine::from_legacy_bytes(&bytes[..20]).err(), Some(EngineError::IoTruncated));
    let mut grouped = c;
    grouped.n_heads = 4;
    grouped.n_kv_heads = 2;
    let mut other = header(&grouped);
    other.extend_from_slice(&body(&grouped).0);
    assert_eq!(
        Engine::from_legacy_bytes(&other).err(),
        Some(EngineError::ArchitectureMismatch)
    );
    let mut broken = c;
    broken.n_kv_heads = 0;
    let mut bad = header(&broken);
    bad.extend_from_slice(&body(&c).0);
    assert_eq!(Engine::from_legacy_bytes(&bad).err(), Some(EngineError::ArchitectureMismatch));
}

#[test]
fn six_layer_model_loads_from_a_dump_and_runs_five_tokens() {
    let c = Config::tiny();
    let n = counts(&c);
    let total: usize = n.iter().sum();
    let mut bytes = header(&c);
    bytes.reserve(4 * total);
    let mut state: u32 = 12345;
    for k in 0..LEGACY_TENSORS {
        for i in 0..n[k] {
            let v: f32 = if k == 1 || k == 6 || k == 10 {
                1.0
            } else if k == 11 || k == 12 {
                let half = c.dim / c.n_heads / 2;
                let (p, j) = (i / half, i % half);
                let angle = p as f32 / 10000f32.powf(2.0 * j as f32 / (2 * half) as f32);
                if k == 11 {
                    angle.cos()
                } else {
                    angle.sin()
                }
            } else {
                state = state.wrapping_mul(1664525).wrapping_add(1013904223);
                ((state >> 9) % 2001) as f32 / 20000.0 - 0.05
            };
            bytes.extend_from_slice(&v.to_le_bytes());
        }
    }
    assert_eq!(bytes.len(), HEADER_BYTES + 4 * total);
    let config = Config::from_reader(&bytes).unwrap();
    assert_eq!(config, c);
    let weights = TransformerWeights::from_reader(&bytes[HEADER_BYTES..], &config).unwrap();
    let named = weights.var_builder(&config).unwrap();
    let mut cache = Cache::new(true, &config, &named).unwrap();
    let model = Llama::load(&named, config).unwrap();
    let logits = model.forward(&[1, 306, 4658, 278, 6593], 0, &mut cache).unwrap();
    assert_eq!(logits.dims(), &[32000]);
    assert_eq!(logits.to_vec1::<f32>().unwrap().len(), 32000);
    assert_eq!(cache.max_len(), 5);
}
