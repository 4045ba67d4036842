use ck_embed::output::{
    embedding_spans, logit_positions, pooling_strategy, rerank_slots, OutputError, PoolingStrategy,
    RowSpan,
};

#[test]
fn rank_selects_pooling() {
    assert_eq!(pooling_strategy(2), Ok(PoolingStrategy::Pooled));
    assert_eq!(pooling_strategy(3), Ok(PoolingStrategy::FirstToken));
    assert_eq!(pooling_strategy(4), Err(OutputError::UnexpectedRank(4)));
    assert_eq!(pooling_strategy(1), Err(OutputError::UnexpectedRank(1)));
}

#[test]
fn pooled_rows_are_read_in_order() {
    let spans = embedding_spans(&vec![3, 5], 3, 4).unwrap();
    assert_eq!(
        spans,
        vec![
            RowSpan { start: 0, take: 4 },
            RowSpan { start: 5, take: 4 },
            RowSpan { start: 10, take: 4 }
        ]
    );
}

#[test]
fn first_token_is_taken_from_each_row() {
    let spans = embedding_spans(&vec![2, 7, 384], 2, 384).unwrap();
    assert_eq!(
        spans,
        vec![RowSpan { start: 0, take: 384 }, RowSpan { start: 7 * 384, take: 384 }]
    );
}

#[test]
fn narrow_output_takes_its_width() {
    let spans = embedding_spans(&vec![1, 3], 1, 8).unwrap();
    assert_eq!(spans, vec![RowSpan { start: 0, take: 3 }]);
}

#[test]
fn bad_outputs_are_rejected() {
    assert_eq!(embedding_spans(&vec![2], 2, 4), Err(OutputError::UnexpectedRank(1)));
    assert_eq!(
        embedding_spans(&vec![2, 4], 3, 4),
        Err(OutputError::RowCount { expected: 3, found: 2 })
    );
    assert_eq!(embedding_spans(&vec![2, 0, 4], 2, 4), Err(OutputError::EmptySequence));
    assert_eq!(
        embedding_spans(&vec![usize::MAX, 2], usize::MAX, 4),
        Err(OutputError::TooLarge)
    );
}

#[test]
fn logits_take_first_column() {
    assert_eq!(logit_positions(&vec![3, 2], 3), Ok(vec![Some(0), Some(2), Some(4)]));
    assert_eq!(logit_positions(&vec![2, 1], 2), Ok(vec![Some(0), Some(1)]));
    assert_eq!(logit_positions(&vec![2, 0], 2), Ok(vec![None, None]));
    assert_eq!(logit_positions(&vec![2, 1, 1], 2), Err(OutputError::UnexpectedRank(3)));
    assert_eq!(
        logit_positions(&vec![1, 1], 2),
        Err(OutputError::RowCount { expected: 2, found: 1 })
    );
}

#[test]
fn rerank_slots_keep_document_order() {
    let docs = vec!["first".to_string(), "second".to_string(), "third".to_string()];
    let slots = rerank_slots("q", &docs, &vec![3, 1]).unwrap();
    assert_eq!(slots.len(), 3);
    for (i, slot) in slots.iter().enumerate() {
        assert_eq!(slot.query, "q");
        assert_eq!(slot.document, docs[i]);
        assert_eq!(slot.logit, Some(i));
    }
    assert_eq!(
        rerank_slots("q", &docs, &vec![2, 1]).unwrap_err(),
        OutputError::RowCount { expected: 3, found: 2 }
    );
    assert!(rerank_slots("q", &vec![], &vec![0, 1]).unwrap().is_empty());
}
