use chat_inference::config::{read_i32, Config, HEADER_BYTES, NORM_EPS_BITS};
use chat_inference::error::EngineError;

fn header(fields: [i32; 7]) -> Vec<u8> {
    let mut bytes = Vec::new();
    for f in fields {
        bytes.extend_from_slice(&f.to_le_bytes());
    }
    bytes
}

#[test]
fn tiny_is_the_six_layer_story_model() {
    let c = Config::tiny();
    assert_eq!(c.dim, 288);
    assert_eq!(c.hidden_dim, 768);
    assert_eq!(c.n_layers, 6);
    assert_eq!(c.n_heads, 6);
    assert_eq!(c.n_kv_heads, 6);
    assert_eq!(c.vocab_size, 32000);
    assert_eq!(c.seq_len, 256);
    assert_eq!(f64::from_bits(c.norm_eps_bits), 1e-5);
    assert_eq!(NORM_EPS_BITS, 1e-5f64.to_bits());
    assert!(c.validate());
    assert_eq!(c.head_size(), 48);
    assert_eq!(c.repeat_factor(), 1);
    assert_eq!(c.kv_dim(), 288);
}

#[test]
fn read_i32_decodes_little_endian_two_complement() {
    assert_eq!(read_i32(&[0x20, 0x01, 0x00, 0x00], 0), Ok(288));
    assert_eq!(read_i32(&[0xff, 0xff, 0xff, 0xff], 0), Ok(-1));
    assert_eq!(read_i32(&[0x00, 0x00, 0x00, 0x80], 0), Ok(i32::MIN));
    assert_eq!(read_i32(&[0xff, 0xff, 0xff, 0x7f], 0), Ok(i32::MAX));
    assert_eq!(read_i32(&[9, 9, 0x78, 0x56, 0x34, 0x12], 2), Ok(0x12345678));
    assert_eq!(read_i32(&[1, 2, 3], 0), Err(EngineError::IoTruncated));
    assert_eq!(read_i32(&[1, 2, 3, 4, 5], 2), Err(EngineError::IoTruncated));
    assert_eq!(read_i32(&[1, 2, 3, 4], usize::MAX), Err(EngineError::IoTruncated));
}

#[test]
fn from_reader_reads_the_seven_fields() {
    let mut bytes = header([288, 768, 6, 6, 6, 32000, 256]);
    assert_eq!(bytes.len(), HEADER_BYTES);
    assert_eq!(Config::from_reader(&bytes), Ok(Config::tiny()));
    bytes.extend_from_slice(&[1, 2, 3]);
    assert_eq!(Config::from_reader(&bytes), Ok(Config::tiny()));
    let grouped = Config::from_reader(&header([64, 128, 2, 8, 2, 100, 32])).unwrap();
    assert_eq!(grouped.n_heads, 8);
    assert_eq!(grouped.n_kv_heads, 2);
    assert_eq!(grouped.repeat_factor(), 4);
    assert_eq!(grouped.head_size(), 8);
    assert_eq!(grouped.kv_dim(), 16);
}

#[test]
fn from_reader_reports_a_short_header() {
    let bytes = header([288, 768, 6, 6, 6, 32000, 256]);
    assert_eq!(Config::from_reader(&bytes[..27]), Err(EngineError::IoTruncated));
    assert_eq!(Config::from_reader(&[]), Err(EngineError::IoTruncated));
}

#[test]
fn from_reader_refuses_a_header_that_breaks_the_invariant() {
    let mismatch = Err(EngineError::ArchitectureMismatch);
    assert_eq!(Config::from_reader(&header([288, 768, 6, 6, 4, 32000, 256])), mismatch);
    assert_eq!(Config::from_reader(&header([288, 768, 6, 0, 6, 32000, 256])), mismatch);
    assert_eq!(Config::from_reader(&header([288, 768, 6, 6, 0, 32000, 256])), mismatch);
    assert_eq!(Config::from_reader(&header([288, 768, 6, 6, 6, -32000, 256])), mismatch);
    assert_eq!(Config::from_reader(&header([-288, 768, 6, 6, 6, 32000, 256])), mismatch);
    assert_eq!(Config::from_reader(&header([290, 768, 6, 6, 6, 32000, 256])), mismatch);
    assert_eq!(Config::from_reader(&header([18, 768, 6, 6, 6, 32000, 256])), mismatch);
    assert_eq!(Config::from_reader(&header([288, 768, 6, 6, 6, 32000, 0])), mismatch);
}

#[test]
fn validate_agrees_with_the_invariant_on_examples() {
    let mut c = Config::tiny();
    assert!(c.validate());
    c.n_kv_heads = 4;
    assert!(!c.validate());
    c.n_kv_heads = 3;
    assert!(c.validate());
    c.seq_len = usize::MAX;
    assert!(!c.validate());
}

#[test]
fn key_value_heads_serve_contiguous_groups_of_query_heads() {
    let c = Config {
        dim: 64,
        hidden_dim: 128,
        n_layers: 1,
        n_heads: 8,
        n_kv_heads: 2,
        vocab_size: 16,
        seq_len: 8,
        norm_eps_bits: NORM_EPS_BITS,
    };
    assert!(c.validate());
    for q in 0..4 {
        assert_eq!(c.kv_head_of(q), 0);
    }
    for q in 4..8 {
        assert_eq!(c.kv_head_of(q), 1);
    }
}
