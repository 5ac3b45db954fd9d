use indexer_grpc_data_service::response::{
    chunk_transactions, count_fitting, get_transactions_responses_builder, ChunkError,
    TransactionsResponse, MESSAGE_SIZE_LIMIT,
};
use indexer_grpc_data_service::transaction::{Timestamp, Transaction};
use indexer_grpc_data_service::wire::{
    chain_id_encoded_len, frames_encoded_len, timestamp_encoded_len, total_encoded_len,
};

fn run(from: u64, to: u64) -> Vec<Transaction> {
    (from..to).map(Transaction::with_version).collect()
}

fn sized(version: u64, payload: usize) -> Transaction {
    Transaction { version, timestamp: None, payload: vec![0u8; payload] }
}

#[test]
fn encoded_len_of_a_version_follows_its_varint() {
    assert_eq!(Transaction::with_version(0).encoded_len(), Some(0));
    assert_eq!(Transaction::with_version(1).encoded_len(), Some(2));
    assert_eq!(Transaction::with_version(127).encoded_len(), Some(2));
    assert_eq!(Transaction::with_version(128).encoded_len(), Some(3));
    assert_eq!(Transaction::with_version(300).encoded_len(), Some(3));
    assert_eq!(Transaction::with_version(16_383).encoded_len(), Some(3));
    assert_eq!(Transaction::with_version(16_384).encoded_len(), Some(4));
    assert_eq!(Transaction::with_version(u64::MAX).encoded_len(), Some(11));
}

#[test]
fn encoded_len_counts_timestamp_and_payload() {
    let t = Transaction {
        version: 5,
        timestamp: Some(Timestamp { seconds: 1, nanos: 0 }),
        payload: vec![0u8; 10],
    };
    // timestamp: key, length, (key, seconds); version: key, value; payload
    assert_eq!(t.encoded_len(), Some(4 + 2 + 10));
    assert_eq!(t.framed_len(), Some(1 + 1 + 16));
    let empty_timestamp = Transaction {
        version: 0,
        timestamp: Some(Timestamp { seconds: 0, nanos: 0 }),
        payload: vec![],
    };
    assert_eq!(empty_timestamp.encoded_len(), Some(2));
}

#[test]
fn timestamp_len_of_negative_fields_is_ten_bytes_each() {
    assert_eq!(timestamp_encoded_len(&Timestamp { seconds: 0, nanos: 0 }), 0);
    assert_eq!(timestamp_encoded_len(&Timestamp { seconds: 1, nanos: 1 }), 4);
    assert_eq!(timestamp_encoded_len(&Timestamp { seconds: 1_700_000_000, nanos: 999_999_999 }), 6 + 6);
    assert_eq!(timestamp_encoded_len(&Timestamp { seconds: -1, nanos: 0 }), 11);
    assert_eq!(timestamp_encoded_len(&Timestamp { seconds: 0, nanos: -1 }), 11);
    assert_eq!(timestamp_encoded_len(&Timestamp { seconds: i64::MIN, nanos: i32::MIN }), 22);
}

#[test]
fn chain_id_field_len() {
    assert_eq!(chain_id_encoded_len(None), 0);
    assert_eq!(chain_id_encoded_len(Some(0)), 2);
    assert_eq!(chain_id_encoded_len(Some(1)), 2);
    assert_eq!(chain_id_encoded_len(Some(128)), 3);
    assert_eq!(chain_id_encoded_len(Some(u64::MAX)), 11);
}

#[test]
fn frames_and_totals_add_up() {
    let txs = vec![Transaction::with_version(1), Transaction::with_version(300), sized(2, 200)];
    // encoded: 2, 3, 202; framed: 4, 5, 1 + 2 + 202
    assert_eq!(total_encoded_len(&txs), Some(2 + 3 + 202));
    assert_eq!(frames_encoded_len(&txs), Some(4 + 5 + 205));
    assert_eq!(total_encoded_len(&vec![]), Some(0));
    assert_eq!(frames_encoded_len(&vec![]), Some(0));
}

#[test]
fn response_encoded_len_is_frames_and_chain_id() {
    let r = TransactionsResponse { chain_id: Some(4), transactions: run(1, 4) };
    assert_eq!(r.encoded_len(), Some(3 * 4 + 2));
    let r = TransactionsResponse { chain_id: None, transactions: vec![] };
    assert_eq!(r.encoded_len(), Some(0));
}

#[test]
fn count_fitting_stops_at_the_first_that_does_not_fit() {
    let txs = run(1, 6);
    assert_eq!(count_fitting(&txs, 0), 0);
    assert_eq!(count_fitting(&txs, 3), 0);
    assert_eq!(count_fitting(&txs, 4), 1);
    assert_eq!(count_fitting(&txs, 11), 2);
    assert_eq!(count_fitting(&txs, 20), 5);
    assert_eq!(count_fitting(&txs, 1000), 5);
    assert_eq!(count_fitting(&vec![], 1000), 0);
}

#[test]
fn chunks_hold_as_many_as_fit() {
    let chunks = chunk_transactions(run(1, 6), 10).unwrap();
    assert_eq!(chunks, vec![run(1, 3), run(3, 5), run(5, 6)]);
    let chunks = chunk_transactions(run(1, 6), 4).unwrap();
    assert_eq!(chunks.len(), 5);
    let chunks = chunk_transactions(run(1, 6), 20).unwrap();
    assert_eq!(chunks, vec![run(1, 6)]);
    let chunks = chunk_transactions(vec![], 20).unwrap();
    assert!(chunks.is_empty());
}

#[test]
fn chunks_put_together_are_the_input() {
    let txs: Vec<Transaction> = (1..40u64).map(|v| sized(v, (v % 7) as usize)).collect();
    let chunks = chunk_transactions(txs.clone(), 25).unwrap();
    for chunk in &chunks {
        assert!(!chunk.is_empty());
        assert!(frames_encoded_len(chunk).unwrap() <= 25);
    }
    let joined: Vec<Transaction> = chunks.into_iter().flatten().collect();
    assert_eq!(joined, txs);
}

#[test]
fn transaction_too_large_for_a_chunk_is_an_error() {
    let r = chunk_transactions(run(1, 6), 3);
    assert_eq!(r.err(), Some(ChunkError::TransactionTooLarge { version: 1 }));
    let txs = vec![Transaction::with_version(1), sized(2, 100), sized(3, 200)];
    let r = chunk_transactions(txs, 50);
    assert_eq!(r.err(), Some(ChunkError::TransactionTooLarge { version: 2 }));
}

#[test]
fn responses_carry_the_chain_id_and_the_run() {
    let responses = get_transactions_responses_builder(run(100, 350), 7).unwrap();
    assert_eq!(responses.len(), 1);
    assert_eq!(responses[0].chain_id, Some(7));
    assert_eq!(responses[0].transactions, run(100, 350));
    let responses = get_transactions_responses_builder(vec![], 7).unwrap();
    assert!(responses.is_empty());
}

#[test]
fn responses_stay_within_the_message_size_limit() {
    assert_eq!(MESSAGE_SIZE_LIMIT, 15 * 1024 * 1024);
    // four transactions of five megabytes: three do not fit into one message
    let txs: Vec<Transaction> = (1..5u64).map(|v| sized(v, 5 * 1024 * 1024)).collect();
    let responses = get_transactions_responses_builder(txs.clone(), 1).unwrap();
    assert_eq!(responses.len(), 2);
    for response in &responses {
        assert!(response.transactions.len() >= 1);
        assert_eq!(response.chain_id, Some(1));
        assert!(response.encoded_len().unwrap() <= MESSAGE_SIZE_LIMIT);
    }
    let joined: Vec<Transaction> = responses.into_iter().flat_map(|r| r.transactions).collect();
    assert_eq!(joined, txs);
}

#[test]
fn transaction_that_just_fits_fills_one_response() {
    // chain id: 2 bytes; frame: key, 4 bytes of length, then version (2 bytes) and payload
    let payload = MESSAGE_SIZE_LIMIT - 2 - 1 - 4 - 2;
    let responses = get_transactions_responses_builder(vec![sized(1, payload)], 1).unwrap();
    assert_eq!(responses.len(), 1);
    assert_eq!(responses[0].encoded_len(), Some(MESSAGE_SIZE_LIMIT));
}

#[test]
fn transaction_beyond_the_limit_is_refused() {
    let payload = MESSAGE_SIZE_LIMIT - 2 - 1 - 4 - 2 + 1;
    let r = get_transactions_responses_builder(
        vec![Transaction::with_version(8), sized(9, payload)],
        1,
    );
    assert_eq!(r.err(), Some(ChunkError::TransactionTooLarge { version: 9 }));
}
