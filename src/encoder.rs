//! Tokenizing text batches into input tensors for an inference graph.
use vstd::prelude::*;
use crate::batch::{
    build_batch, is_batch_of, sequence_length, BatchError, BatchTensors, InputSignature,
    TokenEncoding,
};

verus! {

#[verifier::external_type_specification]
#[verifier::external_body]
pub struct ExTokenizer(tokenizers::Tokenizer);

/// Relies on `tokenizers::Tokenizer::encode` for one sequence with special
/// tokens; the encoding's ids, attention mask and type ids are copied out.
/// Nothing is assumed of the result: it depends on the loaded vocabulary.
#[verifier::external_body]
fn encode_single(tokenizer: &tokenizers::Tokenizer, text: &str) -> (r: Result<TokenEncoding, String>) {
    match tokenizer.encode(text, true) {
        Ok(e) => Ok(
            TokenEncoding {
                ids: e.get_ids().to_vec(),
                attention_mask: e.get_attention_mask().to_vec(),
                type_ids: e.get_type_ids().to_vec(),
            },
        ),
        Err(e) => Err(e.to_string()),
    }
}

/// Relies on `tokenizers::Tokenizer::encode` for a pair of sequences, the
/// first before the second, with special tokens; the encoding's ids,
/// attention mask and type ids are copied out. Nothing is assumed of the result.
#[verifier::external_body]
fn encode_pair(tokenizer: &tokenizers::Tokenizer, first: &str, second: &str) -> (r: Result<
    TokenEncoding,
    String,
>) {
    match tokenizer.encode((first, second), true) {
        Ok(e) => Ok(
            TokenEncoding {
                ids: e.get_ids().to_vec(),
                attention_mask: e.get_attention_mask().to_vec(),
                type_ids: e.get_type_ids().to_vec(),
            },
        ),
        Err(e) => Err(e.to_string()),
    }
}

/// The name of the optional third graph input.
pub open spec fn token_type_input() -> Seq<char> {
    "token_type_ids"@
}

/// The graph needs token-type ids exactly when it declares an input of that name.
pub fn signature_from_inputs(names: &Vec<String>) -> (r: InputSignature)
    ensures
        (r == InputSignature::ThreeInput) == exists|i: int|
            0 <= i < names@.len() && #[trigger] names@[i]@ == token_type_input(),
{
    let wanted = String::from_str("token_type_ids");
    let mut i: usize = 0;
    while i < names.len()
        invariant
            i <= names@.len(),
            wanted@ == token_type_input(),
            forall|j: int| 0 <= j < i ==> #[trigger] names@[j]@ != token_type_input(),
        decreases names@.len() - i,
    {
        if names[i] == wanted {
            return InputSignature::ThreeInput;
        }
        i = i + 1;
    }
    InputSignature::TwoInput
}

/// What holds of tensors built from `n` inputs, whatever the tokenizer produced.
pub open spec fn built_from(
    t: BatchTensors,
    n: int,
    max_tokens: int,
    signature: InputSignature,
) -> bool {
    exists|encs: Seq<TokenEncoding>|
        encs.len() == n && #[trigger] is_batch_of(t, encs, max_tokens, signature)
}

/// A tokenizer with the row-length bound and input signature of one model.
pub struct TextEncoder {
    pub tokenizer: tokenizers::Tokenizer,
    pub max_length: usize,
    pub signature: InputSignature,
}

impl TextEncoder {
    pub fn new(tokenizer: tokenizers::Tokenizer, max_length: usize, signature: InputSignature) -> (r:
        TextEncoder)
        ensures
            r.max_length == max_length,
            r.signature == signature,
    {
        TextEncoder { tokenizer, max_length, signature }
    }

    /// Encodes each text alone; the first failure fails the whole batch.
    pub fn encode_texts(&self, texts: &Vec<String>) -> (r: Result<Vec<TokenEncoding>, BatchError>)
        ensures
            match r {
                Ok(v) => v@.len() == texts@.len(),
                Err(e) => e is Tokenize,
            },
    {
        let mut out: Vec<TokenEncoding> = Vec::new();
        let mut i: usize = 0;
        while i < texts.len()
            invariant
                i <= texts@.len(),
                out@.len() == i,
            decreases texts@.len() - i,
        {
            match encode_single(&self.tokenizer, texts[i].as_str()) {
                Ok(e) => out.push(e),
                Err(msg) => {
                    return Err(BatchError::Tokenize(msg));
                },
            }
            i = i + 1;
        }
        Ok(out)
    }

    /// Encodes `query` paired with each document, query first; the first
    /// failure fails the whole batch.
    pub fn encode_pairs(&self, query: &str, documents: &Vec<String>) -> (r: Result<
        Vec<TokenEncoding>,
        BatchError,
    >)
        ensures
            match r {
                Ok(v) => v@.len() == documents@.len(),
                Err(e) => e is Tokenize,
            },
    {
        let mut out: Vec<TokenEncoding> = Vec::new();
        let mut i: usize = 0;
        while i < documents.len()
            invariant
                i <= documents@.len(),
                out@.len() == i,
            decreases documents@.len() - i,
        {
            match encode_pair(&self.tokenizer, query, documents[i].as_str()) {
                Ok(e) => out.push(e),
                Err(msg) => {
                    return Err(BatchError::Tokenize(msg));
                },
            }
            i = i + 1;
        }
        Ok(out)
    }

    /// The input tensors for a batch of texts, one row per text.
    pub fn build_inputs(&self, texts: &Vec<String>) -> (r: Result<BatchTensors, BatchError>)
        ensures
            match r {
                Ok(t) => built_from(t, texts@.len() as int, self.max_length as int, self.signature),
                Err(e) => e is Tokenize || e is TensorShape,
            },
    {
        let encs = self.encode_texts(texts)?;
        let t = build_batch(&encs, self.max_length, self.signature)?;
        assert(is_batch_of(t, encs@, self.max_length as int, self.signature));
        Ok(t)
    }

    /// The input tensors for a query against each document, one row per document.
    pub fn build_pair_inputs(&self, query: &str, documents: &Vec<String>) -> (r: Result<
        BatchTensors,
        BatchError,
    >)
        ensures
            match r {
                Ok(t) => built_from(
                    t,
                    documents@.len() as int,
                    self.max_length as int,
                    self.signature,
                ),
                Err(e) => e is Tokenize || e is TensorShape,
            },
    {
        let encs = self.encode_pairs(query, documents)?;
        let t = build_batch(&encs, self.max_length, self.signature)?;
        assert(is_batch_of(t, encs@, self.max_length as int, self.signature));
        Ok(t)
    }

    /// The tensors for an embedding call, or `None` for an empty batch,
    /// which needs no inference at all.
    pub fn prepare_embed(&self, texts: &Vec<String>) -> (r: Result<Option<BatchTensors>, BatchError>)
        ensures
            texts@.len() == 0 ==> r matches Ok(None),
            texts@.len() > 0 ==> match r {
                Ok(Some(t)) => built_from(
                    t,
                    texts@.len() as int,
                    self.max_length as int,
                    self.signature,
                ),
                Ok(None) => false,
                Err(e) => e is Tokenize || e is TensorShape,
            },
    {
        if texts.len() == 0 {
            return Ok(None);
        }
        let t = self.build_inputs(texts)?;
        Ok(Some(t))
    }

    /// The tensors for a reranking call, or `None` for an empty document
    /// list, which needs no inference at all.
    pub fn prepare_rerank(&self, query: &str, documents: &Vec<String>) -> (r: Result<
        Option<BatchTensors>,
        BatchError,
    >)
        ensures
            documents@.len() == 0 ==> r matches Ok(None),
            documents@.len() > 0 ==> match r {
                Ok(Some(t)) => built_from(
                    t,
                    documents@.len() as int,
                    self.max_length as int,
                    self.signature,
                ),
                Ok(None) => false,
                Err(e) => e is Tokenize || e is TensorShape,
            },
    {
        if documents.len() == 0 {
            return Ok(None);
        }
        let t = self.build_pair_inputs(query, documents)?;
        Ok(Some(t))
    }
}

} // verus!
