use candle_core::{Device, Tensor};
use chat_inference::sampler::Sampler;

fn logits(values: &[f32]) -> Tensor {
    Tensor::from_vec(values.to_vec(), values.len(), &Device::Cpu).unwrap()
}

#[test]
fn temperature_zero_takes_the_largest_logit() {
    let mut a = Sampler::new(0, 0f32.to_bits(), 0.9f32.to_bits()).unwrap();
    let mut b = Sampler::new(7, 0f32.to_bits(), 0.1f32.to_bits()).unwrap();
    let l = logits(&[0.1, 2.5, -1.0, 2.4, 0.0]);
    for _ in 0..5 {
        assert_eq!(a.sample(&l), Ok(1));
        assert_eq!(b.sample(&l), Ok(1));
    }
    assert_eq!(a.sample(&logits(&[-3.0, -2.0, -1.0])), Ok(2));
    assert_eq!(a.sample(&logits(&[4.0])), Ok(0));
    assert!(a.is_greedy());
    assert!(!Sampler::new(0, 0.7f32.to_bits(), 0.9f32.to_bits()).unwrap().is_greedy());
    let mut tiny = Sampler::new(5, 1e-9f32.to_bits(), 0.9f32.to_bits()).unwrap();
    assert_eq!(tiny.sample(&l), Ok(1));
}

#[test]
fn fixed_seed_gives_the_same_sequence() {
    let rows: Vec<Tensor> = (0..20)
        .map(|r| {
            let v: Vec<f32> = (0..16).map(|i| ((i * 7 + r * 3) % 11) as f32 * 0.3).collect();
            logits(&v)
        })
        .collect();
    let run = |seed: u64| {
        let mut s = Sampler::new(seed, 0.8f32.to_bits(), 0.95f32.to_bits()).unwrap();
        rows.iter().map(|l| s.sample(l).unwrap()).collect::<Vec<u32>>()
    };
    let first = run(299792458);
    assert_eq!(first, run(299792458));
    assert!(first.iter().all(|t| *t < 16));
    let others: Vec<Vec<u32>> = (1..6).map(run).collect();
    assert!(others.iter().any(|o| *o != first));
}

#[test]
fn nucleus_keeps_the_sample_inside_the_likely_tokens() {
    let mut s = Sampler::new(3, 1f32.to_bits(), 0.5f32.to_bits()).unwrap();
    let l = logits(&[10.0, 0.0, 0.0, 0.0]);
    for _ in 0..50 {
        assert_eq!(s.sample(&l), Ok(0));
    }
}

#[test]
fn negative_zero_is_temperature_zero_too() {
    let mut s = Sampler::new(11, (-0.0f32).to_bits(), 0.3f32.to_bits()).unwrap();
    assert!(s.is_greedy());
    let l = logits(&[0.0, -1.0, 7.5, 7.4]);
    for _ in 0..4 {
        assert_eq!(s.sample(&l), Ok(2));
    }
}
