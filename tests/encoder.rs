use std::str::FromStr;

use ck_embed::batch::InputSignature;
use ck_embed::encoder::{signature_from_inputs, TextEncoder};
use tokenizers::Tokenizer;

const VOCAB: &str = r#"{
  "version": "1.0",
  "truncation": null,
  "padding": null,
  "added_tokens": [],
  "normalizer": null,
  "pre_tokenizer": {"type": "Whitespace"},
  "post_processor": null,
  "decoder": null,
  "model": {"type": "WordLevel", "vocab": {"[UNK]": 0, "a": 1, "b": 2, "c": 3, "d": 4}, "unk_token": "[UNK]"}
}"#;

fn encoder(max_length: usize, signature: InputSignature) -> TextEncoder {
    TextEncoder::new(Tokenizer::from_str(VOCAB).unwrap(), max_length, signature)
}

fn strings(items: &[&str]) -> Vec<String> {
    items.iter().map(|s| s.to_string()).collect()
}

#[test]
fn signature_follows_input_names() {
    assert_eq!(
        signature_from_inputs(&strings(&["input_ids", "attention_mask", "token_type_ids"])),
        InputSignature::ThreeInput
    );
    assert_eq!(
        signature_from_inputs(&strings(&["input_ids", "attention_mask"])),
        InputSignature::TwoInput
    );
    assert_eq!(signature_from_inputs(&vec![]), InputSignature::TwoInput);
}

#[test]
fn empty_embed_batch_needs_no_inference() {
    let e = encoder(8, InputSignature::TwoInput);
    assert!(e.prepare_embed(&vec![]).unwrap().is_none());
}

#[test]
fn empty_rerank_batch_needs_no_inference() {
    let e = encoder(8, InputSignature::ThreeInput);
    assert!(e.prepare_rerank("a", &vec![]).unwrap().is_none());
}

#[test]
fn texts_are_tokenized_and_padded() {
    let e = encoder(8, InputSignature::TwoInput);
    let t = e.prepare_embed(&strings(&["a b c", "d"])).unwrap().unwrap();
    assert_eq!(t.batch, 2);
    assert_eq!(t.seq_len, 3);
    assert_eq!(t.input_ids, vec![vec![1, 2, 3], vec![4, 0, 0]]);
    assert_eq!(t.attention_mask, vec![vec![1, 1, 1], vec![1, 0, 0]]);
}

#[test]
fn long_text_is_cut_at_max_length() {
    let e = encoder(2, InputSignature::TwoInput);
    let t = e.build_inputs(&strings(&["a b c d"])).unwrap();
    assert_eq!(t.seq_len, 2);
    assert_eq!(t.input_ids, vec![vec![1, 2]]);
}

#[test]
fn pairs_put_query_first() {
    let e = encoder(8, InputSignature::ThreeInput);
    let t = e.prepare_rerank("a b", &strings(&["c", "d d"])).unwrap().unwrap();
    assert_eq!(t.seq_len, 4);
    assert_eq!(t.input_ids, vec![vec![1, 2, 3, 0], vec![1, 2, 4, 4]]);
    assert_eq!(t.token_type_ids, Some(vec![vec![0, 0, 1, 0], vec![0, 0, 1, 1]]));
}

#[test]
fn unknown_words_map_to_unknown_id() {
    let e = encoder(8, InputSignature::TwoInput);
    let encs = e.encode_texts(&strings(&["a zzz"])).unwrap();
    assert_eq!(encs[0].ids, vec![1, 0]);
    let pairs = e.encode_pairs("a", &strings(&["b"])).unwrap();
    assert_eq!(pairs[0].ids, vec![1, 2]);
}
