use indexer_grpc_data_service::observability::{
    all_chunks_sent, chunk_sent, data_fetched, request_received, IndexerGrpcStep, StepEvent,
    SERVICE_TYPE,
};
use indexer_grpc_data_service::response::TransactionsResponse;
use indexer_grpc_data_service::transaction::{Timestamp, Transaction};

fn at(version: u64, seconds: i64) -> Transaction {
    Transaction { version, timestamp: Some(Timestamp { seconds, nanos: 0 }), payload: vec![] }
}

fn chunk(start: u64, end: u64, size: Option<usize>) -> StepEvent {
    StepEvent {
        step: IndexerGrpcStep::DataServiceChunkSent,
        start_version: Some(start),
        end_version: Some(end),
        start_version_timestamp: Some(Timestamp { seconds: start as i64, nanos: 0 }),
        end_version_timestamp: Some(Timestamp { seconds: end as i64, nanos: 0 }),
        size_in_bytes: size,
        num_transactions: end.checked_sub(start).and_then(|d| d.checked_add(1)),
    }
}

#[test]
fn service_type() {
    assert_eq!(SERVICE_TYPE, "data_service");
}

#[test]
fn new_request_tells_its_starting_version() {
    let event = request_received(55);
    assert_eq!(event.step, IndexerGrpcStep::DataServiceNewRequestReceived);
    assert_eq!(event.start_version, Some(55));
    assert_eq!(event.end_version, None);
    assert_eq!(event.size_in_bytes, None);
    assert_eq!(event.num_transactions, None);
    assert_eq!(event.start_version_timestamp, None);
    assert_eq!(event.end_version_timestamp, None);
}

#[test]
fn fetched_data_counts_from_the_start_version() {
    let txs = vec![at(100, 1), at(101, 2), at(102, 3)];
    let event = data_fetched(IndexerGrpcStep::DataServiceDataFetchedCache, 100, &txs).unwrap();
    assert_eq!(event.step, IndexerGrpcStep::DataServiceDataFetchedCache);
    assert_eq!(event.start_version, Some(100));
    assert_eq!(event.end_version, Some(102));
    assert_eq!(event.start_version_timestamp, Some(Timestamp { seconds: 1, nanos: 0 }));
    assert_eq!(event.end_version_timestamp, Some(Timestamp { seconds: 3, nanos: 0 }));
    // each: timestamp 4 bytes, version 2 bytes
    assert_eq!(event.size_in_bytes, Some(18));
    assert_eq!(event.num_transactions, Some(3));
}

#[test]
fn nothing_is_told_of_an_empty_fetch() {
    assert_eq!(data_fetched(IndexerGrpcStep::DataServiceDataFetchedFilestore, 5, &vec![]), None);
}

#[test]
fn fetched_data_at_the_end_of_versions_has_no_end_version() {
    let txs = vec![at(1, 1), at(2, 2)];
    let event = data_fetched(IndexerGrpcStep::DataServiceTxnsDecoded, u64::MAX, &txs).unwrap();
    assert_eq!(event.end_version, None);
    let event = data_fetched(IndexerGrpcStep::DataServiceTxnsDecoded, u64::MAX - 1, &txs).unwrap();
    assert_eq!(event.end_version, Some(u64::MAX));
}

#[test]
fn sent_chunk_tells_its_versions_and_size() {
    let response = TransactionsResponse { chain_id: Some(1), transactions: vec![at(7, 70), at(8, 80)] };
    let event = chunk_sent(&response).unwrap();
    assert_eq!(event.step, IndexerGrpcStep::DataServiceChunkSent);
    assert_eq!(event.start_version, Some(7));
    assert_eq!(event.end_version, Some(8));
    assert_eq!(event.start_version_timestamp, Some(Timestamp { seconds: 70, nanos: 0 }));
    assert_eq!(event.end_version_timestamp, Some(Timestamp { seconds: 80, nanos: 0 }));
    // two frames of 1 + 1 + 6 bytes, and the chain id
    assert_eq!(event.size_in_bytes, Some(16 + 2));
    assert_eq!(event.size_in_bytes, response.encoded_len());
    assert_eq!(event.num_transactions, Some(2));
    let empty = TransactionsResponse { chain_id: Some(1), transactions: vec![] };
    assert_eq!(chunk_sent(&empty), None);
}

#[test]
fn sent_chunk_without_timestamps_is_told_too() {
    let response = TransactionsResponse {
        chain_id: None,
        transactions: vec![Transaction::with_version(3)],
    };
    let event = chunk_sent(&response).unwrap();
    assert_eq!(event.start_version_timestamp, None);
    assert_eq!(event.end_version_timestamp, None);
    assert_eq!(event.size_in_bytes, Some(4));
}

#[test]
fn all_chunks_reach_from_the_first_to_the_last() {
    let chunks = vec![chunk(10, 19, Some(100)), chunk(20, 24, Some(50)), chunk(25, 40, Some(7))];
    let event = all_chunks_sent(&chunks).unwrap();
    assert_eq!(event.step, IndexerGrpcStep::DataServiceAllChunksSent);
    assert_eq!(event.start_version, Some(10));
    assert_eq!(event.end_version, Some(40));
    assert_eq!(event.start_version_timestamp, Some(Timestamp { seconds: 10, nanos: 0 }));
    assert_eq!(event.end_version_timestamp, Some(Timestamp { seconds: 40, nanos: 0 }));
    assert_eq!(event.size_in_bytes, Some(157));
    assert_eq!(event.num_transactions, Some(31));
    assert_eq!(all_chunks_sent(&vec![]), None);
}

#[test]
fn all_chunks_of_unknown_size_have_no_size() {
    let chunks = vec![chunk(10, 19, Some(100)), chunk(20, 24, None), chunk(25, 40, Some(7))];
    assert_eq!(all_chunks_sent(&chunks).unwrap().size_in_bytes, None);
    let chunks = vec![chunk(10, 19, Some(usize::MAX)), chunk(20, 24, Some(1))];
    assert_eq!(all_chunks_sent(&chunks).unwrap().size_in_bytes, None);
    let chunks = vec![chunk(10, 19, Some(usize::MAX)), chunk(20, 24, Some(1)), chunk(25, 25, None)];
    assert_eq!(all_chunks_sent(&chunks).unwrap().size_in_bytes, None);
}

#[test]
fn all_chunks_out_of_order_have_no_count() {
    let chunks = vec![chunk(20, 24, Some(1)), chunk(10, 19, Some(1))];
    let event = all_chunks_sent(&chunks).unwrap();
    assert_eq!(event.num_transactions, None);
    let whole = vec![chunk(0, u64::MAX, Some(1))];
    assert_eq!(all_chunks_sent(&whole).unwrap().num_transactions, None);
}
