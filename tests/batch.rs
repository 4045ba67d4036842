use ck_embed::batch::{build_batch, seq_len_for, BatchError, InputSignature, TokenEncoding};

fn enc(ids: &[u32], types: &[u32]) -> TokenEncoding {
    TokenEncoding {
        ids: ids.to_vec(),
        attention_mask: vec![1; ids.len()],
        type_ids: types.to_vec(),
    }
}

#[test]
fn rows_are_padded_to_longest() {
    let encs = vec![enc(&[5, 6, 7], &[0, 0, 0]), enc(&[8], &[0])];
    let t = build_batch(&encs, 16, InputSignature::TwoInput).unwrap();
    assert_eq!(t.batch, 2);
    assert_eq!(t.seq_len, 3);
    assert_eq!(t.input_ids, vec![vec![5, 6, 7], vec![8, 0, 0]]);
    assert_eq!(t.attention_mask, vec![vec![1, 1, 1], vec![1, 0, 0]]);
    assert!(t.token_type_ids.is_none());
}

#[test]
fn over_long_text_is_truncated_to_max_tokens() {
    let encs = vec![enc(&[1, 2, 3, 4, 5, 6], &[0; 6]), enc(&[9, 9], &[0, 0])];
    let t = build_batch(&encs, 4, InputSignature::TwoInput).unwrap();
    assert_eq!(t.seq_len, 4);
    assert_eq!(t.input_ids[0], vec![1, 2, 3, 4]);
    assert_eq!(t.attention_mask[0], vec![1, 1, 1, 1]);
    assert_eq!(t.input_ids[1], vec![9, 9, 0, 0]);
}

#[test]
fn token_types_only_for_three_inputs() {
    let encs = vec![enc(&[1, 2], &[0, 1]), enc(&[3], &[])];
    let t = build_batch(&encs, 8, InputSignature::ThreeInput).unwrap();
    assert_eq!(t.token_type_ids, Some(vec![vec![0, 1], vec![0, 0]]));
}

#[test]
fn empty_batch_has_row_length_one() {
    let encs: Vec<TokenEncoding> = vec![];
    assert_eq!(seq_len_for(&encs, 512), 1);
    let t = build_batch(&encs, 512, InputSignature::ThreeInput).unwrap();
    assert_eq!(t.batch, 0);
    assert_eq!(t.seq_len, 1);
    assert!(t.input_ids.is_empty());
}

#[test]
fn zero_max_tokens_still_gives_one_column() {
    let encs = vec![enc(&[4, 5], &[0, 0])];
    let t = build_batch(&encs, 0, InputSignature::TwoInput).unwrap();
    assert_eq!(t.seq_len, 1);
    assert_eq!(t.input_ids, vec![vec![4]]);
}

#[test]
fn empty_encoding_row_is_zero() {
    let encs = vec![enc(&[], &[]), enc(&[7, 8], &[0, 0])];
    let t = build_batch(&encs, 8, InputSignature::TwoInput).unwrap();
    assert_eq!(t.input_ids[0], vec![0, 0]);
    assert_eq!(t.attention_mask[0], vec![0, 0]);
}

#[test]
fn batch_error_variants_exist() {
    let e = BatchError::Tokenize("bad".to_string());
    assert!(matches!(e, BatchError::Tokenize(_)));
}
