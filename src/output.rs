//! Reading raw inference outputs: which values of a row-major output tensor
//! make up each embedding or relevance logit.
use vstd::prelude::*;

verus! {

/// How per-input vectors are read from an embedding output.
#[derive(Debug, Clone, Copy, PartialEq, Eq, Structural)]
pub enum PoolingStrategy {
    /// Rank 2: the graph already pooled; one row per input.
    Pooled,
    /// Rank 3: one vector per token; the first token's vector is taken.
    FirstToken,
}

/// Why an output tensor cannot be read.
#[derive(Debug, Clone, Copy, PartialEq, Eq, Structural)]
pub enum OutputError {
    /// The tensor's rank is not one that this reader handles.
    UnexpectedRank(usize),
    /// The tensor has another number of rows than there were inputs.
    RowCount { expected: usize, found: usize },
    /// The tensor has more elements than can be addressed.
    TooLarge,
    /// A per-token tensor has no token to take.
    EmptySequence,
}

/// The values `start .. start + take` of the flat tensor form one row.
#[derive(Debug, Clone, Copy, PartialEq, Eq, Structural)]
pub struct RowSpan {
    pub start: usize,
    pub take: usize,
}

pub open spec fn strategy_for(rank: int) -> Option<PoolingStrategy> {
    if rank == 2 {
        Some(PoolingStrategy::Pooled)
    } else if rank == 3 {
        Some(PoolingStrategy::FirstToken)
    } else {
        None
    }
}

/// The pooling strategy that the rank of an embedding output calls for.
pub fn pooling_strategy(rank: usize) -> (r: Result<PoolingStrategy, OutputError>)
    ensures
        match strategy_for(rank as int) {
            Some(p) => r == Ok::<PoolingStrategy, OutputError>(p),
            None => r == Err::<PoolingStrategy, OutputError>(OutputError::UnexpectedRank(rank)),
        },
{
    if rank == 2 {
        Ok(PoolingStrategy::Pooled)
    } else if rank == 3 {
        Ok(PoolingStrategy::FirstToken)
    } else {
        Err(OutputError::UnexpectedRank(rank))
    }
}

pub open spec fn min(a: int, b: int) -> int {
    if a < b {
        a
    } else {
        b
    }
}

/// Values between the starts of two neighbouring rows.
pub open spec fn row_stride(shape: Seq<usize>) -> int {
    if shape.len() == 2 {
        shape[1] as int
    } else {
        shape[1] * shape[2]
    }
}

/// The first failure, if any, in reading an embedding output of shape
/// `shape` as `rows` vectors.
pub open spec fn embedding_error(shape: Seq<usize>, rows: int) -> Option<OutputError> {
    if strategy_for(shape.len() as int) is None {
        Some(OutputError::UnexpectedRank(shape.len() as usize))
    } else if shape[0] != rows {
        Some(OutputError::RowCount { expected: rows as usize, found: shape[0] })
    } else if shape[0] * row_stride(shape) > usize::MAX || (shape.len() == 3 && shape[0] * shape[1]
        > usize::MAX) {
        Some(OutputError::TooLarge)
    } else if shape.len() == 3 && shape[1] == 0 && shape[0] > 0 {
        Some(OutputError::EmptySequence)
    } else {
        None
    }
}

/// `v` gives, for each of `rows` rows, the `take` values that start every
/// `stride` values.
pub open spec fn spans_of(v: Seq<RowSpan>, rows: int, stride: int, take: int) -> bool {
    &&& v.len() == rows
    &&& forall|r: int|
        0 <= r < rows ==> (#[trigger] v[r]).start == r * stride && v[r].take == take
}

fn spans(rows: usize, stride: usize, take: usize) -> (r: Vec<RowSpan>)
    requires
        take <= stride || rows == 0,
        rows * stride <= usize::MAX,
    ensures
        spans_of(r@, rows as int, stride as int, take as int),
        forall|k: int| 0 <= k < rows ==> (#[trigger] r@[k]).start + r@[k].take <= rows * stride,
{
    let mut out: Vec<RowSpan> = Vec::new();
    let mut start: usize = 0;
    let mut k: usize = 0;
    while k < rows
        invariant
            k <= rows,
            take <= stride || rows == 0,
            rows * stride <= usize::MAX,
            start == k * stride,
            out@.len() == k,
            forall|j: int|
                0 <= j < k ==> (#[trigger] out@[j]).start == j * stride && out@[j].take == take,
            forall|j: int| 0 <= j < k ==> (#[trigger] out@[j]).start + out@[j].take <= rows * stride,
        decreases rows - k,
    {
        proof {
            assert((k + 1) * stride <= rows * stride) by (nonlinear_arith)
                requires
                    k < rows,
            ;
            assert((k + 1) * stride == k * stride + stride) by (nonlinear_arith);
        }
        out.push(RowSpan { start, take });
        start = start + stride;
        k = k + 1;
    }
    out
}

/// Where each embedding starts in the flat output and how many of its values
/// are kept: `min(width, dim)` values of each row (rank 2) or of each row's
/// first token (rank 3).
pub fn embedding_spans(shape: &Vec<usize>, rows: usize, dim: usize) -> (r: Result<
    Vec<RowSpan>,
    OutputError,
>)
    ensures
        match embedding_error(shape@, rows as int) {
            Some(e) => r == Err::<Vec<RowSpan>, OutputError>(e),
            None => r matches Ok(v) && spans_of(
                v@,
                rows as int,
                row_stride(shape@),
                min(shape@[shape@.len() - 1] as int, dim as int),
            ) && forall|k: int|
                0 <= k < rows ==> (#[trigger] v@[k]).start + v@[k].take <= shape@[0]
                    * row_stride(shape@),
        },
{
    let rank = shape.len();
    let strategy = pooling_strategy(rank)?;
    let batch = shape[0];
    if batch != rows {
        return Err(OutputError::RowCount { expected: rows, found: batch });
    }
    let width = shape[rank - 1];
    let stride = match strategy {
        PoolingStrategy::Pooled => {
            if batch.checked_mul(width).is_none() {
                return Err(OutputError::TooLarge);
            }
            width
        },
        PoolingStrategy::FirstToken => {
            let tokens = shape[1];
            let bt = match batch.checked_mul(tokens) {
                Some(n) => n,
                None => {
                    return Err(OutputError::TooLarge);
                },
            };
            proof {
                assert(batch * tokens * width == batch * (tokens * width)) by (nonlinear_arith);
                assert(row_stride(shape@) == tokens * width);
            }
            if bt.checked_mul(width).is_none() {
                return Err(OutputError::TooLarge);
            }
            if tokens == 0 && batch > 0 {
                return Err(OutputError::EmptySequence);
            }
            proof {
                assert(batch * tokens * width == batch * (tokens * width)) by (nonlinear_arith);
                if batch > 0 {
                    assert(tokens * width <= batch * (tokens * width)) by (nonlinear_arith)
                        requires
                            batch > 0,
                    ;
                }
            }
            if batch == 0 {
                0
            } else {
                tokens * width
            }
        },
    };
    let take = if width < dim {
        width
    } else {
        dim
    };
    proof {
        if rank == 3 && batch == 0 {
            assert(batch * row_stride(shape@) == 0) by (nonlinear_arith)
                requires
                    batch == 0,
            ;
        }
        if rank == 3 && batch > 0 {
            assert(width <= shape@[1] * width) by (nonlinear_arith)
                requires
                    shape@[1] > 0,
            ;
        }
    }
    let out = spans(batch, stride, take);
    proof {
        if rank == 3 && batch == 0 {
            assert(spans_of(out@, rows as int, row_stride(shape@), take as int));
        }
    }
    Ok(out)
}

/// The first failure, if any, in reading a reranking output of shape
/// `shape` as `rows` logits.
pub open spec fn logit_error(shape: Seq<usize>, rows: int) -> Option<OutputError> {
    if shape.len() != 2 {
        Some(OutputError::UnexpectedRank(shape.len() as usize))
    } else if shape[0] != rows {
        Some(OutputError::RowCount { expected: rows as usize, found: shape[0] })
    } else if shape[0] * shape[1] > usize::MAX {
        Some(OutputError::TooLarge)
    } else {
        None
    }
}

/// The position of row `k`'s logit in a flat output `width` values wide.
pub open spec fn logit_at(k: int, width: int) -> Option<usize> {
    if width > 0 {
        Some((k * width) as usize)
    } else {
        None
    }
}

/// Where each row's logit stands in the flat reranking output: the first
/// value of the row, or `None` for rows without values.
pub fn logit_positions(shape: &Vec<usize>, rows: usize) -> (r: Result<Vec<Option<usize>>, OutputError>)
    ensures
        match logit_error(shape@, rows as int) {
            Some(e) => r == Err::<Vec<Option<usize>>, OutputError>(e),
            None => r matches Ok(v) && v@.len() == rows && forall|k: int|
                0 <= k < rows ==> #[trigger] v@[k] == logit_at(k, shape@[1] as int) && (shape@[1]
                    > 0 ==> k * shape@[1] < shape@[0] * shape@[1]),
        },
{
    if shape.len() != 2 {
        return Err(OutputError::UnexpectedRank(shape.len()));
    }
    let batch = shape[0];
    let width = shape[1];
    if batch != rows {
        return Err(OutputError::RowCount { expected: rows, found: batch });
    }
    if batch.checked_mul(width).is_none() {
        return Err(OutputError::TooLarge);
    }
    let take: usize = if width > 0 {
        1
    } else {
        0
    };
    let sp = spans(batch, width, take);
    let mut out: Vec<Option<usize>> = Vec::new();
    let mut k: usize = 0;
    while k < batch
        invariant
            k <= batch,
            batch == rows,
            shape@.len() == 2,
            width == shape@[1],
            batch == shape@[0],
            take == (if width > 0 { 1usize } else { 0usize }),
            spans_of(sp@, batch as int, width as int, take as int),
            forall|j: int| 0 <= j < batch ==> (#[trigger] sp@[j]).start + sp@[j].take <= batch * width,
            out@.len() == k,
            forall|j: int|
                0 <= j < k ==> #[trigger] out@[j] == logit_at(j, width as int) && (width > 0 ==> j
                    * width < batch * width),
        decreases batch - k,
    {
        proof {
            if width > 0 {
                assert(k * width < batch * width) by (nonlinear_arith)
                    requires
                        k < batch,
                        width > 0,
                ;
            }
            assert(sp@[k as int].start == k * width);
            assert(0 <= k * width) by (nonlinear_arith);
            assert(sp@[k as int].start == (k * width) as usize);
        }
        if width > 0 {
            out.push(Some(sp[k].start));
        } else {
            out.push(None);
        }
        assert(out@[k as int] == logit_at(k as int, width as int));
        k = k + 1;
    }
    assert(logit_error(shape@, rows as int) is None);
    assert(out@.len() == rows);
    assert forall|j: int| 0 <= j < rows implies #[trigger] out@[j] == logit_at(j, shape@[1] as int) && (shape@[1]
        > 0 ==> j * shape@[1] < shape@[0] * shape@[1]) by {
        assert(out@[j] == logit_at(j, width as int));
    }
    Ok(out)
}

/// One result of a reranking call before scoring: the pair and where its
/// logit stands in the flat output.
#[derive(Debug, Clone)]
pub struct RerankSlot {
    pub query: String,
    pub document: String,
    pub logit: Option<usize>,
}

/// One slot per document, in the order of the documents: no sorting here.
pub fn rerank_slots(query: &str, documents: &Vec<String>, shape: &Vec<usize>) -> (r: Result<
    Vec<RerankSlot>,
    OutputError,
>)
    ensures
        match logit_error(shape@, documents@.len() as int) {
            Some(e) => r == Err::<Vec<RerankSlot>, OutputError>(e),
            None => r matches Ok(v) && v@.len() == documents@.len() && forall|k: int|
                0 <= k < documents@.len() ==> (#[trigger] v@[k]).query@ == query@ && v@[k].document
                    == documents@[k] && v@[k].logit == logit_at(k, shape@[1] as int) && (v@[k].logit
                    matches Some(p) ==> p < shape@[0] * shape@[1]),
        },
{
    let positions = logit_positions(shape, documents.len())?;
    let mut out: Vec<RerankSlot> = Vec::new();
    let mut k: usize = 0;
    while k < documents.len()
        invariant
            logit_error(shape@, documents@.len() as int) is None,
            positions@.len() == documents@.len(),
            forall|j: int|
                0 <= j < documents@.len() ==> #[trigger] positions@[j] == logit_at(j, shape@[1] as int)
                    && (shape@[1] > 0 ==> j * shape@[1] < shape@[0] * shape@[1]),
            k <= documents@.len(),
            out@.len() == k,
            forall|j: int|
                0 <= j < k ==> (#[trigger] out@[j]).query@ == query@ && out@[j].document
                    == documents@[j] && out@[j].logit == logit_at(j, shape@[1] as int) && (
                out@[j].logit matches Some(p) ==> p < shape@[0] * shape@[1]),
        decreases documents@.len() - k,
    {
        proof {
            assert(positions@[k as int] == logit_at(k as int, shape@[1] as int));
            if shape@[1] > 0 {
                assert(0 <= k * shape@[1]) by (nonlinear_arith);
            }
        }
        out.push(
            RerankSlot {
                query: String::from_str(query),
                document: documents[k].clone(),
                logit: positions[k],
            },
        );
        k = k + 1;
    }
    Ok(out)
}

} // verus!
