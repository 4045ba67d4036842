//! Building rectangular input tensors from tokenized text batches.
use vstd::prelude::*;

verus! {

/// What the tokenizer produced for one input.
#[derive(Debug, Clone)]
pub struct TokenEncoding {
    pub ids: Vec<u32>,
    pub attention_mask: Vec<u32>,
    pub type_ids: Vec<u32>,
}

/// How many input tensors the inference graph declares.
#[derive(Debug, Clone, Copy, PartialEq, Eq, Structural)]
pub enum InputSignature {
    /// Token ids and attention mask.
    TwoInput,
    /// Token ids, attention mask and token-type ids.
    ThreeInput,
}

/// The tensors of one batch, row by row: `batch` rows of `seq_len` values each.
#[derive(Debug, Clone)]
pub struct BatchTensors {
    pub batch: usize,
    pub seq_len: usize,
    pub input_ids: Vec<Vec<i64>>,
    pub attention_mask: Vec<Vec<i64>>,
    pub token_type_ids: Option<Vec<Vec<i64>>>,
}

/// Why a batch could not be built.
#[derive(Debug, Clone)]
pub enum BatchError {
    /// The tokenizer rejected an input; the whole batch fails.
    Tokenize(String),
    /// The tensor shape does not fit in memory addressing.
    TensorShape,
}

/// The longest token count in the batch (0 for an empty batch).
pub open spec fn longest(encs: Seq<TokenEncoding>) -> int
    decreases encs.len(),
{
    if encs.len() == 0 {
        0
    } else {
        let rest = longest(encs.drop_last());
        let n = encs.last().ids@.len() as int;
        if n > rest {
            n
        } else {
            rest
        }
    }
}

/// The common row length: the longest token count, capped at `max_tokens`,
/// and at least 1.
pub open spec fn sequence_length(encs: Seq<TokenEncoding>, max_tokens: int) -> int {
    let capped = if longest(encs) < max_tokens {
        longest(encs)
    } else {
        max_tokens
    };
    if capped < 1 {
        1
    } else {
        capped
    }
}

/// How many tokens of `e` a row of length `seq_len` keeps.
pub open spec fn kept(e: TokenEncoding, seq_len: int) -> int {
    if (e.ids@.len() as int) < seq_len {
        e.ids@.len() as int
    } else {
        seq_len
    }
}

/// Value `c` of a row that copies the first `n` values of `src`, zero after.
pub open spec fn cell(src: Seq<u32>, n: int, c: int) -> i64 {
    if c < n && c < src.len() {
        src[c] as i64
    } else {
        0
    }
}

/// `row` has length `seq_len` and copies the first `n` values of `src`.
pub open spec fn is_row(row: Seq<i64>, src: Seq<u32>, n: int, seq_len: int) -> bool {
    &&& row.len() == seq_len
    &&& forall|c: int| 0 <= c < seq_len ==> #[trigger] row[c] == cell(src, n, c)
}

/// `t` is the tensor built from `encs` and `max_tokens` for `signature`.
pub open spec fn is_batch_of(
    t: BatchTensors,
    encs: Seq<TokenEncoding>,
    max_tokens: int,
    signature: InputSignature,
) -> bool {
    let s = t.seq_len as int;
    &&& t.batch == encs.len()
    &&& s == sequence_length(encs, max_tokens)
    &&& t.input_ids@.len() == encs.len()
    &&& t.attention_mask@.len() == encs.len()
    &&& forall|r: int|
        0 <= r < encs.len() ==> is_row(
            (#[trigger] t.input_ids@[r])@,
            encs[r].ids@,
            kept(encs[r], s),
            s,
        )
    &&& forall|r: int|
        0 <= r < encs.len() ==> is_row(
            (#[trigger] t.attention_mask@[r])@,
            encs[r].attention_mask@,
            kept(encs[r], s),
            s,
        )
    &&& match signature {
        InputSignature::TwoInput => t.token_type_ids is None,
        InputSignature::ThreeInput => t.token_type_ids matches Some(tt) && tt@.len()
            == encs.len() && forall|r: int|
            0 <= r < encs.len() ==> is_row(
                (#[trigger] tt@[r])@,
                encs[r].type_ids@,
                kept(encs[r], s),
                s,
            ),
    }
}

fn longest_len(encs: &Vec<TokenEncoding>) -> (r: usize)
    ensures
        r == longest(encs@),
{
    let mut best: usize = 0;
    let mut i: usize = 0;
    while i < encs.len()
        invariant
            i <= encs@.len(),
            best == longest(encs@.take(i as int)),
        decreases encs@.len() - i,
    {
        proof {
            assert(encs@.take(i + 1).drop_last() =~= encs@.take(i as int));
        }
        let n = encs[i].ids.len();
        if n > best {
            best = n;
        }
        i = i + 1;
    }
    proof {
        assert(encs@.take(i as int) =~= encs@);
    }
    best
}

/// The common row length of a batch.
pub fn seq_len_for(encs: &Vec<TokenEncoding>, max_tokens: usize) -> (r: usize)
    ensures
        r == sequence_length(encs@, max_tokens as int),
        1 <= r,
{
    let longest = longest_len(encs);
    let capped = if longest < max_tokens {
        longest
    } else {
        max_tokens
    };
    if capped < 1 {
        1
    } else {
        capped
    }
}

/// A row of `seq_len` values: the first `n` values of `src`, then zeros.
fn build_row(src: &Vec<u32>, n: usize, seq_len: usize) -> (r: Vec<i64>)
    ensures
        is_row(r@, src@, n as int, seq_len as int),
{
    let mut row: Vec<i64> = Vec::new();
    let mut c: usize = 0;
    while c < seq_len
        invariant
            c <= seq_len,
            row@.len() == c,
            forall|j: int| 0 <= j < c ==> #[trigger] row@[j] == cell(src@, n as int, j),
        decreases seq_len - c,
    {
        if c < n && c < src.len() {
            row.push(src[c] as i64);
        } else {
            row.push(0);
        }
        c = c + 1;
    }
    row
}

/// The tensors for a batch of encodings: each row holds the first
/// `min(token count, seq_len)` values and zeros after; tokens past the row
/// length are dropped.
pub fn build_batch(
    encs: &Vec<TokenEncoding>,
    max_tokens: usize,
    signature: InputSignature,
) -> (r: Result<BatchTensors, BatchError>)
    ensures
        match r {
            Ok(t) => is_batch_of(t, encs@, max_tokens as int, signature) && encs@.len()
                * sequence_length(encs@, max_tokens as int) <= usize::MAX,
            Err(e) => e == BatchError::TensorShape && encs@.len() * sequence_length(
                encs@,
                max_tokens as int,
            ) > usize::MAX,
        },
{
    let seq_len = seq_len_for(encs, max_tokens);
    let batch = encs.len();
    if batch.checked_mul(seq_len).is_none() {
        return Err(BatchError::TensorShape);
    }
    let mut ids: Vec<Vec<i64>> = Vec::new();
    let mut mask: Vec<Vec<i64>> = Vec::new();
    let mut types: Vec<Vec<i64>> = Vec::new();
    let mut r: usize = 0;
    while r < batch
        invariant
            batch == encs@.len(),
            r <= batch,
            seq_len == sequence_length(encs@, max_tokens as int),
            ids@.len() == r,
            mask@.len() == r,
            types@.len() == r,
            forall|k: int|
                0 <= k < r ==> is_row(
                    (#[trigger] ids@[k])@,
                    encs@[k].ids@,
                    kept(encs@[k], seq_len as int),
                    seq_len as int,
                ),
            forall|k: int|
                0 <= k < r ==> is_row(
                    (#[trigger] mask@[k])@,
                    encs@[k].attention_mask@,
                    kept(encs@[k], seq_len as int),
                    seq_len as int,
                ),
            forall|k: int|
                0 <= k < r ==> is_row(
                    (#[trigger] types@[k])@,
                    encs@[k].type_ids@,
                    kept(encs@[k], seq_len as int),
                    seq_len as int,
                ),
        decreases batch - r,
    {
        let e = &encs[r];
        let n = if e.ids.len() < seq_len {
            e.ids.len()
        } else {
            seq_len
        };
        ids.push(build_row(&e.ids, n, seq_len));
        mask.push(build_row(&e.attention_mask, n, seq_len));
        types.push(build_row(&e.type_ids, n, seq_len));
        r = r + 1;
    }
    let token_type_ids = match signature {
        InputSignature::TwoInput => None,
        InputSignature::ThreeInput => Some(types),
    };
    Ok(BatchTensors { batch, seq_len, input_ids: ids, attention_mask: mask, token_type_ids })
}

/// A text with more tokens than `max_tokens` (at least 1) is cut, without
/// error, to exactly its first `max_tokens` tokens in the built tensors.
pub proof fn lemma_over_long_input_truncated(
    t: BatchTensors,
    encs: Seq<TokenEncoding>,
    max_tokens: int,
    signature: InputSignature,
    r: int,
)
    requires
        is_batch_of(t, encs, max_tokens, signature),
        0 <= r < encs.len(),
        1 <= max_tokens < encs[r].ids@.len(),
    ensures
        t.seq_len == max_tokens,
        t.input_ids@[r]@ == encs[r].ids@.take(max_tokens).map_values(|x: u32| x as i64),
        forall|c: int| 0 <= c < max_tokens ==> #[trigger] t.attention_mask@[r]@[c] == cell(
            encs[r].attention_mask@,
            max_tokens,
            c,
        ),
{
    lemma_longest_bounds(encs, r);
    assert(kept(encs[r], max_tokens) == max_tokens);
    let row = t.input_ids@[r]@;
    assert(is_row(row, encs[r].ids@, max_tokens, max_tokens));
    assert(row =~= encs[r].ids@.take(max_tokens).map_values(|x: u32| x as i64));
    assert(is_row(t.attention_mask@[r]@, encs[r].attention_mask@, max_tokens, max_tokens));
}

proof fn lemma_longest_bounds(encs: Seq<TokenEncoding>, r: int)
    requires
        0 <= r < encs.len(),
    ensures
        encs[r].ids@.len() <= longest(encs),
    decreases encs.len(),
{
    if r < encs.len() - 1 {
        lemma_longest_bounds(encs.drop_last(), r);
    }
}

} // verus!
