use llama2_rs::bytes::{read_le_i32_parts, read_le_word};
use llama2_rs::config::{Config, HeaderError};

fn header_bytes(vals: [i32; 7]) -> Vec<u8> {
    let mut out = Vec::new();
    for v in vals.iter() {
        out.extend_from_slice(&v.to_le_bytes());
    }
    out
}

#[test]
fn le_word_decodes_little_endian() {
    let bytes = [0x78u8, 0x56, 0x34, 0x12];
    assert_eq!(read_le_word(&bytes, 0), 0x1234_5678);
}

#[test]
fn le_i32_decodes_sign_and_magnitude() {
    let neg = (-3i32).to_le_bytes();
    assert_eq!(read_le_i32_parts(&neg, 0), (3, true));
    let pos = 7i32.to_le_bytes();
    assert_eq!(read_le_i32_parts(&pos, 0), (7, false));
}

#[test]
fn header_parses_shared_weights() {
    let bytes = header_bytes([4, 4, 1, 2, 2, -3, 2]);
    let cfg = Config::from_bytes(&bytes).unwrap();
    assert_eq!(cfg.dim, 4);
    assert_eq!(cfg.hidden_dim, 4);
    assert_eq!(cfg.n_layers, 1);
    assert_eq!(cfg.n_heads, 2);
    assert_eq!(cfg.n_kv_heads, 2);
    assert_eq!(cfg.vocab_size, 3);
    assert_eq!(cfg.seq_len, 2);
    assert!(cfg.shared_weights);
}

#[test]
fn header_parses_separate_output_table() {
    let bytes = header_bytes([8, 16, 2, 4, 4, 32000, 256]);
    let cfg = Config::from_bytes(&bytes).unwrap();
    assert_eq!(cfg.vocab_size, 32000);
    assert!(!cfg.shared_weights);
}

#[test]
fn header_too_short_is_truncated() {
    let bytes = header_bytes([4, 4, 1, 2, 2, -3, 2]);
    assert_eq!(Config::from_bytes(&bytes[..27]), Err(HeaderError::Truncated));
    assert_eq!(Config::from_bytes(&[]), Err(HeaderError::Truncated));
}

#[test]
fn header_rejects_non_positive_fields() {
    assert_eq!(
        Config::from_bytes(&header_bytes([0, 4, 1, 2, 2, -3, 2])),
        Err(HeaderError::NonPositive)
    );
    assert_eq!(
        Config::from_bytes(&header_bytes([-4, 4, 1, 2, 2, -3, 2])),
        Err(HeaderError::NonPositive)
    );
    assert_eq!(
        Config::from_bytes(&header_bytes([4, 4, 1, 2, 2, 0, 2])),
        Err(HeaderError::NonPositive)
    );
    assert_eq!(
        Config::from_bytes(&header_bytes([4, 4, 1, 2, 2, -3, 0])),
        Err(HeaderError::NonPositive)
    );
}

#[test]
fn header_rejects_grouped_query_attention() {
    assert_eq!(
        Config::from_bytes(&header_bytes([4, 4, 1, 2, 1, -3, 2])),
        Err(HeaderError::UnsupportedKvHeads)
    );
}

#[test]
fn header_rejects_indivisible_dim() {
    assert_eq!(
        Config::from_bytes(&header_bytes([5, 4, 1, 2, 2, -3, 2])),
        Err(HeaderError::NotDivisible)
    );
}

#[test]
fn head_size_is_dim_over_heads() {
    let cfg = Config::from_bytes(&header_bytes([8, 16, 2, 4, 4, 32000, 256])).unwrap();
    assert_eq!(cfg.head_size(), 2);
}
