pub mod audio;
pub mod cache;
pub mod config;
pub mod dispatch;
pub mod error;
pub mod model;
pub mod pipeline;
pub mod quantized;
pub mod relay;
pub mod sampler;
pub mod shape;
pub mod stream;
pub mod tensor;
pub mod text;
pub mod tokenizer;
pub mod weight_map;
pub mod weights;
