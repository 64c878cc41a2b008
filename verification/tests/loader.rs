use llama2_rs::config::{Config, HeaderError};
use llama2_rs::weights::{
    compute_total_words, load_checkpoint, CheckpointError, LlamaWeights, LoadError,
};

fn header_bytes(vals: [i32; 7]) -> Vec<u8> {
    let mut out = Vec::new();
    for v in vals.iter() {
        out.extend_from_slice(&v.to_le_bytes());
    }
    out
}

fn push_floats(out: &mut Vec<u8>, vals: &[f32]) {
    for v in vals.iter() {
        out.extend_from_slice(&v.to_bits().to_le_bytes());
    }
}

fn identity(n: usize) -> Vec<f32> {
    let mut m = vec![0.0f32; n * n];
    for i in 0..n {
        m[i * n + i] = 1.0;
    }
    m
}

fn bits(vals: &[f32]) -> Vec<u32> {
    vals.iter().map(|v| v.to_bits()).collect()
}

/// A synthetic checkpoint: `dim=4, n_heads=2, n_layers=1, hidden_dim=4,
/// vocab_size=3, seq_len=2`, identity projections, all-ones norm weights,
/// zero rotary angles (`cos=1, sin=0`). Shared output table unless a
/// trailing classifier table is appended.
fn synthetic_payload() -> Vec<u8> {
    let mut p = Vec::new();
    // embedding table: row t is [t, t+1, t+2, t+3]
    for t in 0..3 {
        let row: Vec<f32> = (0..4).map(|i| (t + i) as f32).collect();
        push_floats(&mut p, &row);
    }
    push_floats(&mut p, &[1.0; 4]); // rms_attn
    push_floats(&mut p, &identity(4)); // wq
    push_floats(&mut p, &identity(4)); // wk
    push_floats(&mut p, &identity(4)); // wv
    push_floats(&mut p, &identity(4)); // wo
    push_floats(&mut p, &[1.0; 4]); // rms_ffn
    push_floats(&mut p, &identity(4)); // w1
    push_floats(&mut p, &identity(4)); // w2
    push_floats(&mut p, &identity(4)); // w3
    push_floats(&mut p, &[1.0; 4]); // rms_final
    push_floats(&mut p, &[1.0, 1.0]); // rope_real: cos = 1
    push_floats(&mut p, &[0.0, 0.0]); // rope_imag: sin = 0
    p
}

fn shared_config() -> Config {
    Config::from_bytes(&header_bytes([4, 4, 1, 2, 2, -3, 2])).unwrap()
}

#[test]
fn total_words_counts_every_section() {
    let cfg = shared_config();
    // 12 emb + 4 norm + 4*16 attn + 4 norm + 3*16 ffn + 4 final + 2+2 rope
    assert_eq!(compute_total_words(&cfg), Some(140));
}

#[test]
fn synthetic_checkpoint_loads_section_by_section() {
    let cfg = shared_config();
    let payload = synthetic_payload();
    assert_eq!(payload.len(), 140 * 4);
    let w = LlamaWeights::from_bytes(&cfg, &payload, 0).unwrap();

    assert_eq!(w.embeddings, bits(&[0.0, 1.0, 2.0, 3.0, 1.0, 2.0, 3.0, 4.0, 2.0, 3.0, 4.0, 5.0]));
    assert_eq!(w.layers.len(), 1);
    assert_eq!(w.layers[0].rms_attn, bits(&[1.0; 4]));
    assert_eq!(w.layers[0].wq, bits(&identity(4)));
    assert_eq!(w.layers[0].wk, bits(&identity(4)));
    assert_eq!(w.layers[0].wv, bits(&identity(4)));
    assert_eq!(w.layers[0].wo, bits(&identity(4)));
    assert_eq!(w.layers[0].rms_ffn, bits(&[1.0; 4]));
    assert_eq!(w.layers[0].w1, bits(&identity(4)));
    assert_eq!(w.layers[0].w2, bits(&identity(4)));
    assert_eq!(w.layers[0].w3, bits(&identity(4)));
    assert_eq!(w.rms_final, bits(&[1.0; 4]));
    assert_eq!(w.rope_real, bits(&[1.0, 1.0]));
    assert_eq!(w.rope_imag, bits(&[0.0, 0.0]));
    assert!(w.wcls.is_none());
}

#[test]
fn loader_skips_leading_header_bytes() {
    let cfg = shared_config();
    let mut file = header_bytes([4, 4, 1, 2, 2, -3, 2]);
    file.extend_from_slice(&synthetic_payload());
    let w = LlamaWeights::from_bytes(&cfg, &file, 28).unwrap();
    assert_eq!(w.embeddings[0], 0.0f32.to_bits());
    assert_eq!(w.embeddings[5], 2.0f32.to_bits());
}

#[test]
fn separate_output_table_is_read_from_the_tail() {
    let cfg = Config::from_bytes(&header_bytes([4, 4, 1, 2, 2, 3, 2])).unwrap();
    assert!(!cfg.shared_weights);
    let mut payload = synthetic_payload();
    let wcls: Vec<f32> = (0..12).map(|i| (100 + i) as f32).collect();
    push_floats(&mut payload, &wcls);
    let w = LlamaWeights::from_bytes(&cfg, &payload, 0).unwrap();
    assert_eq!(w.wcls.as_ref().unwrap(), &bits(&wcls));
}

#[test]
fn short_payload_is_truncated() {
    let cfg = shared_config();
    let payload = synthetic_payload();
    assert!(matches!(
        LlamaWeights::from_bytes(&cfg, &payload[..payload.len() - 1], 0),
        Err(LoadError::Truncated)
    ));
    assert!(matches!(LlamaWeights::from_bytes(&cfg, &[], 0), Err(LoadError::Truncated)));
    // base beyond the buffer leaves nothing to read
    assert!(matches!(
        LlamaWeights::from_bytes(&cfg, &payload, payload.len() + 1 + 560),
        Err(LoadError::Truncated)
    ));
}

#[test]
fn embedding_row_is_one_table_row() {
    let cfg = shared_config();
    let payload = synthetic_payload();
    let w = LlamaWeights::from_bytes(&cfg, &payload, 0).unwrap();
    assert_eq!(w.embedding_row(&cfg, 0), bits(&[0.0, 1.0, 2.0, 3.0]));
    assert_eq!(w.embedding_row(&cfg, 2), bits(&[2.0, 3.0, 4.0, 5.0]));
}

#[test]
fn whole_checkpoint_loads_in_one_call() {
    let mut file = header_bytes([4, 4, 1, 2, 2, -3, 2]);
    file.extend_from_slice(&synthetic_payload());
    let (cfg, w) = load_checkpoint(&file).unwrap();
    assert_eq!(cfg.dim, 4);
    assert_eq!(cfg.vocab_size, 3);
    assert!(cfg.shared_weights);
    assert_eq!(w.embeddings.len(), 12);
    assert_eq!(w.layers[0].wq, bits(&identity(4)));

    assert!(matches!(
        load_checkpoint(&file[..file.len() - 4]),
        Err(CheckpointError::Truncated)
    ));
    assert!(matches!(
        load_checkpoint(&file[..10]),
        Err(CheckpointError::Header(HeaderError::Truncated))
    ));
}

#[test]
fn oversized_shape_cannot_load_from_a_small_buffer() {
    let cfg = Config::from_bytes(&header_bytes([
        1 << 20,
        1 << 20,
        1 << 20,
        1 << 10,
        1 << 10,
        1 << 20,
        1 << 20,
    ]))
    .unwrap();
    let tiny = [0u8; 64];
    assert!(matches!(LlamaWeights::from_bytes(&cfg, &tiny, 0), Err(LoadError::Truncated)));
}
