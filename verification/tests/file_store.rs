use indexer_grpc_data_service::file_store::{block_read, check_block, BlockError};
use indexer_grpc_data_service::planner::BlockRead;
use indexer_grpc_data_service::transaction::Transaction;

fn run(from: u64, to: u64) -> Vec<Transaction> {
    (from..to).map(Transaction::with_version).collect()
}

#[test]
fn full_block_is_right() {
    assert_eq!(check_block(2000, 5000, &run(2000, 3000)), Ok(()));
    assert_eq!(check_block(0, 0, &run(0, 1000)), Ok(()));
}

#[test]
fn only_the_newest_block_may_be_partial() {
    assert_eq!(check_block(5000, 5000, &run(5000, 5300)), Ok(()));
    assert_eq!(check_block(6000, 5000, &run(6000, 6001)), Ok(()));
    assert_eq!(check_block(4000, 5000, &run(4000, 4999)), Err(BlockError::Partial));
}

#[test]
fn miss_up_to_the_newest_block_is_an_error() {
    assert_eq!(check_block(4000, 5000, &vec![]), Err(BlockError::Missing));
    assert_eq!(check_block(5000, 5000, &vec![]), Err(BlockError::Missing));
}

#[test]
fn miss_behind_the_newest_block_is_absence() {
    assert_eq!(check_block(6000, 5000, &vec![]), Ok(()));
}

#[test]
fn block_has_to_be_asked_for_by_its_start() {
    assert_eq!(check_block(2500, 5000, &run(2500, 3000)), Err(BlockError::NotAligned));
    assert_eq!(check_block(1, 5000, &vec![]), Err(BlockError::NotAligned));
}

#[test]
fn block_has_to_start_where_it_was_asked_for() {
    assert_eq!(check_block(2000, 5000, &run(2001, 3000)), Err(BlockError::StartsElsewhere));
    assert_eq!(check_block(2000, 5000, &run(3000, 4000)), Err(BlockError::StartsElsewhere));
}

#[test]
fn block_has_to_be_dense_and_no_longer_than_a_block() {
    let mut sparse = run(2000, 3000);
    sparse[500].version = 9;
    assert_eq!(check_block(2000, 5000, &sparse), Err(BlockError::NotDense));
    assert_eq!(check_block(2000, 5000, &run(2000, 3001)), Err(BlockError::TooLong));
}

#[test]
fn read_that_gave_a_block_is_taken() {
    assert_eq!(
        block_read(2000, 5000, Some(run(2000, 3000))),
        BlockRead::Transactions(run(2000, 3000))
    );
    assert_eq!(block_read(6000, 5000, Some(vec![])), BlockRead::Transactions(vec![]));
}

#[test]
fn read_that_gave_something_else_has_failed() {
    assert_eq!(block_read(2000, 5000, None), BlockRead::ReadFailed);
    assert_eq!(block_read(2000, 5000, Some(vec![])), BlockRead::ReadFailed);
    assert_eq!(block_read(2000, 5000, Some(run(2000, 2500))), BlockRead::ReadFailed);
    assert_eq!(block_read(2000, 5000, Some(run(2001, 3001))), BlockRead::ReadFailed);
}
