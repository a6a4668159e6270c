use candle_core::{Device, Tensor};
use chat_inference::cache::{causal_mask_bytes, Cache};
use chat_inference::config::{Config, NORM_EPS_BITS};
use chat_inference::error::EngineError;
use chat_inference::weight_map::{TensorName, WeightMap};

fn config() -> Config {
    Config {
        dim: 8,
        hidden_dim: 16,
        n_layers: 3,
        n_heads: 2,
        n_kv_heads: 1,
        vocab_size: 10,
        seq_len: 6,
        norm_eps_bits: NORM_EPS_BITS,
    }
}

#[test]
fn causal_mask_masks_exactly_the_future() {
    assert_eq!(causal_mask_bytes(0), Vec::<u8>::new());
    assert_eq!(causal_mask_bytes(1), vec![0]);
    assert_eq!(causal_mask_bytes(3), vec![0, 1, 1, 0, 0, 1, 0, 0, 0]);
    let t = 5;
    let m = causal_mask_bytes(t);
    for i in 0..t {
        for j in 0..t {
            assert_eq!(m[i * t + j], u8::from(j > i));
        }
    }
}

#[test]
fn mask_is_built_once_and_kept() {
    let mut cache = Cache::new(true, &config(), &WeightMap::new()).unwrap();
    let first = cache.mask(4).unwrap();
    assert_eq!(first.dims(), &[4, 4]);
    assert_eq!(first.flatten_all().unwrap().to_vec1::<u8>().unwrap(), causal_mask_bytes(4));
    let again = cache.mask(4).unwrap();
    assert_eq!(again.id(), first.id());
    let other = cache.mask(2).unwrap();
    assert_eq!(other.to_vec2::<u8>().unwrap(), vec![vec![0, 1], vec![0, 0]]);
    assert_eq!(cache.mask(4).unwrap().id(), first.id());
}

#[test]
fn new_cache_is_empty_and_reset_empties_it() {
    let c = config();
    let mut cache = Cache::new(true, &c, &WeightMap::new()).unwrap();
    assert!(cache.use_kv_cache());
    assert_eq!(cache.get_config(), c);
    for layer in 0..c.n_layers {
        assert!(cache.get(layer).is_none());
    }
    let k = Tensor::zeros((1, 2, 1, 4), candle_core::DType::F32, &Device::Cpu).unwrap();
    let v = Tensor::ones((1, 2, 1, 4), candle_core::DType::F32, &Device::Cpu).unwrap();
    cache.put(1, k, v);
    assert_eq!(cache.max_len(), 2);
    assert!(cache.get(0).is_none());
    let (k1, v1) = cache.get(1).unwrap();
    assert_eq!(k1.dims(), &[1, 2, 1, 4]);
    assert_eq!(v1.flatten_all().unwrap().to_vec1::<f32>().unwrap(), vec![1.0; 8]);
    let mask = cache.mask(3).unwrap();
    cache.reset();
    assert_eq!(cache.max_len(), 0);
    for layer in 0..c.n_layers {
        assert!(cache.get(layer).is_none());
    }
    assert_eq!(cache.mask(3).unwrap().id(), mask.id());
}

#[test]
fn new_cache_refuses_a_configuration_that_breaks_the_invariant() {
    let mut c = config();
    c.n_kv_heads = 0;
    assert_eq!(
        Cache::new(true, &c, &WeightMap::new()).err(),
        Some(EngineError::ArchitectureMismatch)
    );
}

#[test]
fn rotary_tables_are_computed_when_the_weights_hold_none() {
    let c = config();
    let cache = Cache::new(false, &c, &WeightMap::new()).unwrap();
    assert!(!cache.use_kv_cache());
    let cos = cache.cos_handle();
    let sin = cache.sin_handle();
    assert_eq!(cos.dims(), &[6, 2, 1]);
    assert_eq!(sin.dims(), &[6, 2, 1]);
    let cos = cos.flatten_all().unwrap().to_vec1::<f32>().unwrap();
    let sin = sin.flatten_all().unwrap().to_vec1::<f32>().unwrap();
    for p in 0..6 {
        for i in 0..2 {
            let theta = 1f32 / 10000f32.powf((2 * i) as f32 / 4.0);
            let angle = p as f32 * theta;
            assert!((cos[p * 2 + i] - angle.cos()).abs() < 1e-5);
            assert!((sin[p * 2 + i] - angle.sin()).abs() < 1e-5);
        }
    }
}

#[test]
fn rotary_tables_of_the_weights_are_used_when_they_fit() {
    let c = config();
    let table: Vec<f32> = (0..12).map(|i| i as f32).collect();
    let mut w = WeightMap::new();
    w.insert(TensorName::RotaryReal, Tensor::from_vec(table.clone(), (6, 2), &Device::Cpu).unwrap());
    w.insert(TensorName::RotaryImag, Tensor::from_vec(table.clone(), (4, 3), &Device::Cpu).unwrap());
    let cache = Cache::new(true, &c, &w).unwrap();
    assert_eq!(cache.cos_handle().flatten_all().unwrap().to_vec1::<f32>().unwrap(), table);
    let sin = cache.sin_handle().flatten_all().unwrap().to_vec1::<f32>().unwrap();
    assert!((sin[2] - 1f32.sin()).abs() < 1e-5);
}

#[test]
fn a_rotary_table_of_another_element_type_is_refused_at_once() {
    let c = config();
    let mut w = WeightMap::new();
    let table = Tensor::zeros((6, 2), candle_core::DType::F64, &Device::Cpu).unwrap();
    w.insert(TensorName::RotaryImag, table);
    assert_eq!(Cache::new(true, &c, &w).err(), Some(EngineError::UnsupportedDtype));
    let mut other = WeightMap::new();
    let misshapen = Tensor::zeros((6, 3), candle_core::DType::F64, &Device::Cpu).unwrap();
    other.insert(TensorName::RotaryImag, misshapen);
    assert!(Cache::new(true, &c, &other).is_ok());
}
