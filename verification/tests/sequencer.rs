use indexer_grpc_data_service::sequencer::{
    ensure_sequential_transactions, sequence_batches, SequenceError,
};
use indexer_grpc_data_service::transaction::{is_dense_batch, Timestamp, Transaction};

fn run(from: u64, to: u64) -> Vec<Transaction> {
    (from..to).map(Transaction::with_version).collect()
}

fn versions(transactions: &[Transaction]) -> Vec<u64> {
    transactions.iter().map(|t| t.version).collect()
}

fn tagged(version: u64, tag: u8) -> Transaction {
    Transaction { version, timestamp: None, payload: vec![tag] }
}

#[test]
fn test_ensure_sequential_transactions_merges_and_sorts() {
    let transactions1 = (1..5)
        .map(|i| Transaction {
            version: i,
            ..Default::default()
        })
        .collect();
    let transactions2 = (5..10)
        .map(|i| Transaction {
            version: i,
            ..Default::default()
        })
        .collect();
    // No overlap, just normal fetching flow
    let transactions1 = ensure_sequential_transactions(vec![transactions1, transactions2]);
    assert_eq!(transactions1.len(), 9);
    assert_eq!(transactions1.first().unwrap().version, 1);
    assert_eq!(transactions1.last().unwrap().version, 9);

    // This is a full overlap
    let transactions2 = (5..7)
        .map(|i| Transaction {
            version: i,
            ..Default::default()
        })
        .collect();
    let transactions1 = ensure_sequential_transactions(vec![transactions1, transactions2]);
    assert_eq!(transactions1.len(), 9);
    assert_eq!(transactions1.first().unwrap().version, 1);
    assert_eq!(transactions1.last().unwrap().version, 9);

    // Partial overlap
    let transactions2 = (5..12)
        .map(|i| Transaction {
            version: i,
            ..Default::default()
        })
        .collect();
    let transactions1 = ensure_sequential_transactions(vec![transactions1, transactions2]);
    assert_eq!(transactions1.len(), 11);
    assert_eq!(transactions1.first().unwrap().version, 1);
    assert_eq!(transactions1.last().unwrap().version, 11);
}

#[test]
fn disjoint_batches_in_order_are_joined() {
    let merged = sequence_batches(vec![run(1, 5), run(5, 10)]).unwrap();
    assert_eq!(versions(&merged.transactions), (1..10).collect::<Vec<u64>>());
    assert_eq!(merged.transactions.len(), 9);
    assert_eq!(merged.full_overlap, 0);
    assert_eq!(merged.partial_overlap, 0);
}

#[test]
fn contained_batch_is_discarded_and_counted() {
    let merged = sequence_batches(vec![run(1, 10), run(5, 7)]).unwrap();
    assert_eq!(versions(&merged.transactions), (1..10).collect::<Vec<u64>>());
    // versions 5 and 6 arrived a second time
    assert_eq!(merged.full_overlap, 2);
    assert_eq!(merged.partial_overlap, 0);
}

#[test]
fn overlapping_batch_loses_its_front() {
    let merged = sequence_batches(vec![run(1, 10), run(5, 12)]).unwrap();
    assert_eq!(versions(&merged.transactions), (1..12).collect::<Vec<u64>>());
    assert_eq!(merged.transactions.len(), 11);
    assert_eq!(merged.full_overlap, 0);
    assert_eq!(merged.partial_overlap, 5);
}

#[test]
fn gap_between_batches_is_an_error() {
    let r = sequence_batches(vec![run(1, 5), run(7, 10)]);
    assert_eq!(r.err(), Some(SequenceError::Gap { prev_end: 4, start_version: 7 }));
}

#[test]
fn gap_is_found_whatever_the_order() {
    let r = sequence_batches(vec![run(7, 10), run(1, 5)]);
    assert_eq!(r.err(), Some(SequenceError::Gap { prev_end: 4, start_version: 7 }));
}

#[test]
fn batches_are_put_in_order_first() {
    let merged = sequence_batches(vec![run(20, 30), run(1, 10), run(10, 20)]).unwrap();
    assert_eq!(versions(&merged.transactions), (1..30).collect::<Vec<u64>>());
    assert_eq!(merged.full_overlap, 0);
    assert_eq!(merged.partial_overlap, 0);
}

#[test]
fn batch_inside_what_was_merged_before_is_discarded() {
    // [6, 8] lies inside [1, 11], which the first two batches make together
    let merged = sequence_batches(vec![run(1, 10), run(5, 12), run(6, 9)]).unwrap();
    assert_eq!(versions(&merged.transactions), (1..12).collect::<Vec<u64>>());
    assert_eq!(merged.partial_overlap, 5);
    assert_eq!(merged.full_overlap, 3);
}

#[test]
fn single_batch_is_returned_unchanged() {
    let batch = vec![tagged(40, 1), tagged(41, 2), tagged(42, 3)];
    let merged = sequence_batches(vec![batch.clone()]).unwrap();
    assert_eq!(merged.transactions, batch);
    assert_eq!(ensure_sequential_transactions(vec![batch.clone()]), batch);
}

#[test]
fn no_batches_merge_to_nothing() {
    let merged = sequence_batches(vec![]).unwrap();
    assert!(merged.transactions.is_empty());
    assert_eq!(merged.full_overlap, 0);
    assert_eq!(merged.partial_overlap, 0);
}

#[test]
fn batches_with_the_same_start_keep_their_order() {
    let first = vec![tagged(1, 1), tagged(2, 1)];
    let second = vec![tagged(1, 2), tagged(2, 2), tagged(3, 2)];
    let merged = sequence_batches(vec![first, second]).unwrap();
    assert_eq!(merged.transactions, vec![tagged(1, 1), tagged(2, 1), tagged(3, 2)]);
    assert_eq!(merged.partial_overlap, 2);

    let first = vec![tagged(1, 1), tagged(2, 1), tagged(3, 1)];
    let second = vec![tagged(1, 2), tagged(2, 2)];
    let merged = sequence_batches(vec![first, second]).unwrap();
    assert_eq!(merged.transactions, vec![tagged(1, 1), tagged(2, 1), tagged(3, 1)]);
    assert_eq!(merged.full_overlap, 2);
}

#[test]
fn empty_batch_is_an_error() {
    let r = sequence_batches(vec![run(1, 5), vec![]]);
    assert_eq!(r.err(), Some(SequenceError::EmptyBatch));
    let r = sequence_batches(vec![vec![]]);
    assert_eq!(r.err(), Some(SequenceError::EmptyBatch));
}

#[test]
fn sparse_batch_is_an_error() {
    let sparse = vec![Transaction::with_version(1), Transaction::with_version(3)];
    let r = sequence_batches(vec![run(1, 5), sparse]);
    assert_eq!(r.err(), Some(SequenceError::NotDense));
    let repeated = vec![Transaction::with_version(4), Transaction::with_version(4)];
    let r = sequence_batches(vec![repeated]);
    assert_eq!(r.err(), Some(SequenceError::NotDense));
}

#[test]
fn empty_batch_is_reported_before_a_sparse_one() {
    let sparse = vec![Transaction::with_version(1), Transaction::with_version(3)];
    let r = sequence_batches(vec![sparse, vec![]]);
    assert_eq!(r.err(), Some(SequenceError::EmptyBatch));
}

#[test]
fn merged_output_ascends_without_repeats() {
    let merged = sequence_batches(vec![run(90, 140), run(100, 120), run(1, 95), run(140, 141)])
        .unwrap();
    let v = versions(&merged.transactions);
    assert_eq!(v.first(), Some(&1));
    assert_eq!(v.last(), Some(&140));
    for pair in v.windows(2) {
        assert_eq!(pair[0] + 1, pair[1]);
    }
}

#[test]
fn batch_that_ends_at_the_last_version_merges() {
    let merged = sequence_batches(vec![
        run(u64::MAX - 3, u64::MAX).into_iter().chain([Transaction::with_version(u64::MAX)]).collect(),
        vec![Transaction::with_version(u64::MAX)],
    ])
    .unwrap();
    assert_eq!(merged.transactions.len(), 4);
    assert_eq!(merged.transactions.last().unwrap().version, u64::MAX);
    assert_eq!(merged.full_overlap, 1);
}

#[test]
fn dense_batches_are_told_from_sparse_ones() {
    assert!(is_dense_batch(&vec![]));
    assert!(is_dense_batch(&run(7, 8)));
    assert!(is_dense_batch(&run(7, 20)));
    assert!(!is_dense_batch(&vec![Transaction::with_version(2), Transaction::with_version(1)]));
    assert!(!is_dense_batch(&vec![
        Transaction::with_version(u64::MAX),
        Transaction::with_version(0)
    ]));
}

#[test]
fn default_transaction_is_bare() {
    let t = Transaction::default();
    assert_eq!(t, Transaction { version: 0, timestamp: None, payload: vec![] });
    assert_eq!(t, Transaction::with_version(0));
}

#[test]
fn with_version_makes_a_bare_transaction() {
    let t = Transaction::with_version(9);
    assert_eq!(t, Transaction { version: 9, timestamp: None, payload: vec![] });
    let u = Transaction { version: 9, timestamp: Some(Timestamp { seconds: 1, nanos: 2 }), payload: vec![] };
    assert_ne!(t, u);
}
