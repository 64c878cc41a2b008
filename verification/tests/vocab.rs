use llama2_rs::vocab::{Vocab, VocabError};

fn record(out: &mut Vec<u8>, text: &[u8]) {
    out.extend_from_slice(&(text.len() as i32).to_le_bytes());
    out.extend_from_slice(text);
}

#[test]
fn vocab_parses_length_prefixed_records() {
    let mut data = Vec::new();
    record(&mut data, b"a");
    record(&mut data, b"bc");
    record(&mut data, b"");
    record(&mut data, b"<unk>");
    let v = Vocab::from_bytes(4, &data).unwrap();
    assert_eq!(v.token_count(), 4);
    assert_eq!(v.get_token(0), b"a".to_vec());
    assert_eq!(v.get_token(1), b"bc".to_vec());
    assert_eq!(v.get_token(2), Vec::<u8>::new());
    assert_eq!(v.get_token(3), b"<unk>".to_vec());
}

#[test]
fn vocab_offsets_are_cumulative() {
    let mut data = Vec::new();
    record(&mut data, b"a");
    record(&mut data, b"bc");
    let v = Vocab::from_bytes(2, &data).unwrap();
    assert_eq!(v.offsets, vec![0, 1, 3]);
    assert_eq!(v.bytes, b"abc".to_vec());
}

#[test]
fn empty_input_parses_zero_tokens() {
    let v = Vocab::from_bytes(0, &[]).unwrap();
    assert_eq!(v.token_count(), 0);
}

#[test]
fn short_record_is_malformed() {
    let mut data = Vec::new();
    record(&mut data, b"a");
    // declares 2 bytes but carries 1
    data.extend_from_slice(&2i32.to_le_bytes());
    data.push(b'x');
    assert!(matches!(Vocab::from_bytes(2, &data), Err(VocabError::Malformed)));
}

#[test]
fn missing_record_is_malformed() {
    let mut data = Vec::new();
    record(&mut data, b"a");
    assert!(matches!(Vocab::from_bytes(2, &data), Err(VocabError::Malformed)));
}

#[test]
fn negative_length_is_malformed() {
    let mut data = Vec::new();
    data.extend_from_slice(&(-1i32).to_le_bytes());
    assert!(matches!(Vocab::from_bytes(1, &data), Err(VocabError::Malformed)));
}

#[test]
fn trailing_bytes_after_last_record_are_ignored() {
    let mut data = Vec::new();
    record(&mut data, b"a");
    data.push(0xff);
    let v = Vocab::from_bytes(1, &data).unwrap();
    assert_eq!(v.get_token(0), b"a".to_vec());
}
