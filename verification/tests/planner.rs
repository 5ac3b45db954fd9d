use indexer_grpc_data_service::cache::{CacheCoverageStatus, CacheWindow};
use indexer_grpc_data_service::config::{
    AHEAD_OF_CACHE_RETRY_SLEEP_DURATION_MS, FILE_STORE_METADATA_WAIT_MS,
    MAX_FETCH_TASKS_PER_REQUEST, MOVING_AVERAGE_WINDOW_SIZE, NUM_DATA_FETCH_RETRIES,
    RESPONSE_CHANNEL_SEND_TIMEOUT_SECS, SHORT_CONNECTION_DURATION_IN_SECS,
    TRANSACTIONS_PER_STORAGE_BLOCK, TRANSIENT_DATA_ERROR_RETRY_SLEEP_DURATION_MS,
};
use indexer_grpc_data_service::planner::{
    align_to_block, collect_blocks, collect_cache_read, fetch_task_starts, num_fetch_tasks,
    plan_for_coverage, BlockRead, CoveragePlan, FetchResult,
};
use indexer_grpc_data_service::transaction::Transaction;

fn run(from: u64, to: u64) -> Vec<Transaction> {
    (from..to).map(Transaction::with_version).collect()
}

#[test]
fn constants_have_their_values() {
    assert_eq!(AHEAD_OF_CACHE_RETRY_SLEEP_DURATION_MS, 50);
    assert_eq!(TRANSIENT_DATA_ERROR_RETRY_SLEEP_DURATION_MS, 1000);
    assert_eq!(FILE_STORE_METADATA_WAIT_MS, 2000);
    assert_eq!(RESPONSE_CHANNEL_SEND_TIMEOUT_SECS, 120);
    assert_eq!(SHORT_CONNECTION_DURATION_IN_SECS, 10);
    assert_eq!(MOVING_AVERAGE_WINDOW_SIZE, 10_000);
    assert_eq!(MAX_FETCH_TASKS_PER_REQUEST, 10);
    assert_eq!(TRANSACTIONS_PER_STORAGE_BLOCK, 1000);
    assert_eq!(NUM_DATA_FETCH_RETRIES, 5);
}

#[test]
fn coverage_of_a_window() {
    let window = CacheWindow { tail: 500, head: 1800 };
    assert_eq!(window.coverage(1800), CacheCoverageStatus::DataNotReady);
    assert_eq!(window.coverage(10_000), CacheCoverageStatus::DataNotReady);
    assert_eq!(window.coverage(499), CacheCoverageStatus::CacheEvicted);
    assert_eq!(window.coverage(0), CacheCoverageStatus::CacheEvicted);
    assert_eq!(window.coverage(500), CacheCoverageStatus::CacheHit(1300));
    assert_eq!(window.coverage(1799), CacheCoverageStatus::CacheHit(1));
}

#[test]
fn coverage_of_an_empty_window() {
    let window = CacheWindow { tail: 0, head: 0 };
    assert_eq!(window.coverage(0), CacheCoverageStatus::DataNotReady);
    let window = CacheWindow { tail: 7, head: 7 };
    assert_eq!(window.coverage(6), CacheCoverageStatus::CacheEvicted);
    assert_eq!(window.coverage(7), CacheCoverageStatus::DataNotReady);
}

#[test]
fn blocks_are_aligned() {
    assert_eq!(align_to_block(0), 0);
    assert_eq!(align_to_block(999), 0);
    assert_eq!(align_to_block(1000), 1000);
    assert_eq!(align_to_block(1500), 1000);
    assert_eq!(align_to_block(u64::MAX), 18_446_744_073_709_551_000);
}

#[test]
fn never_fewer_than_ten_tasks() {
    assert_eq!(num_fetch_tasks(None), 10);
    assert_eq!(num_fetch_tasks(Some(0)), 10);
    assert_eq!(num_fetch_tasks(Some(100)), 10);
    assert_eq!(num_fetch_tasks(Some(10_000)), 10);
    assert_eq!(num_fetch_tasks(Some(10_001)), 11);
    assert_eq!(num_fetch_tasks(Some(25_000)), 25);
    assert_eq!(num_fetch_tasks(Some(25_001)), 26);
    assert_eq!(num_fetch_tasks(Some(u64::MAX)), 18_446_744_073_709_552);
}

#[test]
fn task_starts_are_aligned_and_a_block_apart() {
    let expected: Vec<u64> = (0..10).map(|i| 1000 + i * 1000).collect();
    assert_eq!(fetch_task_starts(1500, None), expected);
    assert_eq!(fetch_task_starts(1000, Some(100)), expected);
    let starts = fetch_task_starts(50, Some(12_345));
    assert_eq!(starts.len(), 13);
    assert_eq!(starts[0], 0);
    assert_eq!(starts[12], 12_000);
}

#[test]
fn task_starts_end_where_versions_end() {
    assert_eq!(fetch_task_starts(u64::MAX, None), vec![18_446_744_073_709_551_000]);
    assert_eq!(
        fetch_task_starts(18_446_744_073_709_549_123, None),
        vec![
            18_446_744_073_709_549_000,
            18_446_744_073_709_550_000,
            18_446_744_073_709_551_000
        ]
    );
}

#[test]
fn plan_follows_the_coverage() {
    assert_eq!(plan_for_coverage(None, 5, None), CoveragePlan::Fatal);
    assert_eq!(
        plan_for_coverage(Some(CacheCoverageStatus::DataNotReady), 5, None),
        CoveragePlan::Wait { millis: 50 }
    );
    assert_eq!(
        plan_for_coverage(Some(CacheCoverageStatus::CacheHit(30)), 5, Some(7)),
        CoveragePlan::ReadCache { start_version: 5, count: 30 }
    );
    assert_eq!(
        plan_for_coverage(Some(CacheCoverageStatus::CacheEvicted), 2050, Some(7)),
        CoveragePlan::ReadBlocks { start_versions: (2..12).map(|i| i * 1000).collect() }
    );
}

#[test]
fn failed_task_is_fatal() {
    let reads = vec![BlockRead::Transactions(run(0, 10)), BlockRead::TaskFailed];
    assert_eq!(collect_blocks(reads), FetchResult::Fatal);
    assert_eq!(collect_blocks(vec![BlockRead::TaskFailed]), FetchResult::Fatal);
}

#[test]
fn empty_and_failed_reads_are_dropped() {
    let reads = vec![
        BlockRead::Transactions(run(1000, 2000)),
        BlockRead::ReadFailed,
        BlockRead::Transactions(vec![]),
        BlockRead::Transactions(run(0, 1000)),
    ];
    assert_eq!(
        collect_blocks(reads),
        FetchResult::BatchSuccess(vec![run(1000, 2000), run(0, 1000)])
    );
}

#[test]
fn nothing_fetched_is_no_results() {
    assert_eq!(
        collect_blocks(vec![BlockRead::Transactions(vec![]), BlockRead::Transactions(vec![])]),
        FetchResult::NoResults { retry_after_millis: None }
    );
    assert_eq!(
        collect_blocks(vec![BlockRead::Transactions(vec![]), BlockRead::ReadFailed]),
        FetchResult::NoResults { retry_after_millis: None }
    );
    assert_eq!(collect_blocks(vec![]), FetchResult::NoResults { retry_after_millis: None });
}

#[test]
fn wait_is_due_when_every_read_failed() {
    assert_eq!(
        collect_blocks(vec![BlockRead::ReadFailed, BlockRead::ReadFailed]),
        FetchResult::NoResults { retry_after_millis: Some(1000) }
    );
}

#[test]
fn cache_read_becomes_one_batch() {
    assert_eq!(
        collect_cache_read(Some(run(5, 9))),
        Some(FetchResult::BatchSuccess(vec![run(5, 9)]))
    );
    assert_eq!(
        collect_cache_read(Some(vec![])),
        Some(FetchResult::NoResults { retry_after_millis: None })
    );
    assert_eq!(collect_cache_read(None), None);
}
