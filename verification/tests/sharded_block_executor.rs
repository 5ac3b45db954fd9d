use indexer_grpc_data_service::session::{StatusCode, VMStatus};
use indexer_grpc_data_service::sharded_block_executor::{
    aggregate_results, is_well_shaped, ordered_outputs, try_aggregate_results, ExecutorClient,
    ExecutorShardCommand, PartitionedTransactions, ShardedBlockExecutor, ShardedExecutionOutput,
};
use std::sync::Arc;

fn violation() -> VMStatus {
    VMStatus { status_code: StatusCode::UnknownInvariantViolationError }
}

/// A client whose shards put out, for each transaction, its number times ten.
struct TenTimes {
    shards: usize,
    fails: bool,
}

impl ExecutorClient<u8> for TenTimes {
    type Transaction = u32;
    type Output = u32;

    fn num_shards(&self) -> usize {
        self.shards
    }

    fn execute_block(
        &self,
        _state_view: Arc<u8>,
        transactions: PartitionedTransactions<u32>,
        _concurrency_level_per_shard: usize,
        _maybe_block_gas_limit: Option<u64>,
    ) -> Result<ShardedExecutionOutput<u32>, VMStatus> {
        if self.fails {
            return Err(violation());
        }
        let times_ten = |txns: Vec<u32>| txns.into_iter().map(|t| t * 10).collect::<Vec<u32>>();
        Ok(ShardedExecutionOutput {
            sharded_output: transactions
                .sharded_txns
                .into_iter()
                .map(|shard| shard.into_iter().map(times_ten).collect())
                .collect(),
            global_output: times_ten(transactions.global_txns),
        })
    }
}

fn block() -> PartitionedTransactions<u32> {
    PartitionedTransactions {
        // two shards, two rounds
        sharded_txns: vec![vec![vec![1, 2], vec![5]], vec![vec![3, 4], vec![6, 7]]],
        global_txns: vec![8, 9],
    }
}

#[test]
fn outputs_come_round_by_round_and_shard_by_shard() {
    let sharded = vec![vec![vec![1, 2], vec![5]], vec![vec![3, 4], vec![6, 7]]];
    assert_eq!(aggregate_results(sharded, vec![8, 9]), vec![1, 2, 3, 4, 5, 6, 7, 8, 9]);
}

#[test]
fn shard_that_ran_fewer_rounds_leaves_its_places_empty() {
    let sharded = vec![vec![vec![1], vec![4], vec![6]], vec![vec![2, 3]], vec![vec![], vec![5]]];
    assert!(is_well_shaped(&sharded));
    assert_eq!(try_aggregate_results(sharded, vec![7]), Some(vec![1, 2, 3, 4, 5, 6, 7]));
}

#[test]
fn single_shard_without_rounds_gives_the_global_output() {
    let sharded: Vec<Vec<Vec<u8>>> = vec![vec![]];
    assert_eq!(aggregate_results(sharded, vec![1, 2]), vec![1, 2]);
}

#[test]
fn outputs_that_do_not_fit_together_are_refused() {
    let none: Vec<Vec<Vec<u8>>> = vec![];
    assert!(!is_well_shaped(&none));
    assert_eq!(try_aggregate_results(none, vec![1]), None);
    // the second shard ran more rounds than the first
    let uneven = vec![vec![vec![1]], vec![vec![2], vec![3]]];
    assert!(!is_well_shaped(&uneven));
    assert_eq!(try_aggregate_results(uneven, vec![]), None);
}

#[test]
fn outputs_of_another_number_of_shards_are_refused() {
    let output = ShardedExecutionOutput { sharded_output: vec![vec![vec![1]]], global_output: vec![2] };
    assert_eq!(ordered_outputs(output, 2), Err(violation()));
    let output = ShardedExecutionOutput { sharded_output: vec![vec![vec![1]]], global_output: vec![2] };
    assert_eq!(ordered_outputs(output, 1), Ok(vec![1, 2]));
    let output: ShardedExecutionOutput<u8> =
        ShardedExecutionOutput { sharded_output: vec![], global_output: vec![] };
    assert_eq!(ordered_outputs(output, 0), Err(violation()));
}

#[test]
fn executor_aggregates_what_the_shards_return() {
    let executor = ShardedBlockExecutor::new(TenTimes { shards: 2, fails: false });
    assert_eq!(executor.num_shards(), 2);
    let r = executor.execute_block(Arc::new(0u8), block(), 4, Some(100));
    assert_eq!(r, Ok(vec![10, 20, 30, 40, 50, 60, 70, 80, 90]));
}

#[test]
fn executor_refuses_a_block_cut_for_other_shards() {
    let executor = ShardedBlockExecutor::new(TenTimes { shards: 3, fails: false });
    assert_eq!(block().num_shards(), 2);
    let r = executor.execute_block(Arc::new(0u8), block(), 4, None);
    assert_eq!(r, Err(violation()));
}

#[test]
fn executor_hands_on_the_failure_of_the_shards() {
    let executor = ShardedBlockExecutor::new(TenTimes { shards: 2, fails: true });
    let r = executor.execute_block(Arc::new(0u8), block(), 1, None);
    assert_eq!(r, Err(violation()));
}

#[test]
fn output_is_taken_apart() {
    let output = ShardedExecutionOutput { sharded_output: vec![vec![vec![1u8]]], global_output: vec![2u8] };
    let (sharded, global) = output.into_inner();
    assert_eq!(sharded, vec![vec![vec![1u8]]]);
    assert_eq!(global, vec![2u8]);
}

#[test]
fn shard_commands() {
    let command: ExecutorShardCommand<u8, Vec<u32>> =
        ExecutorShardCommand::ExecuteSubBlocks(Arc::new(1), vec![1, 2], 8, Some(5));
    match command {
        ExecutorShardCommand::ExecuteSubBlocks(state, sub_blocks, concurrency, gas_limit) => {
            assert_eq!(*state, 1);
            assert_eq!(sub_blocks, vec![1, 2]);
            assert_eq!(concurrency, 8);
            assert_eq!(gas_limit, Some(5));
        },
        ExecutorShardCommand::Stop => panic!("not this one"),
    }
    let stop: ExecutorShardCommand<u8, Vec<u32>> = ExecutorShardCommand::Stop;
    assert!(matches!(stop, ExecutorShardCommand::Stop));
}
