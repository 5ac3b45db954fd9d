//! The fetch planner: which tier to read a version from, and which blocks of the file
//! store to ask for.

use vstd::prelude::*;
use crate::cache::CacheCoverageStatus;
use crate::config::{
    AHEAD_OF_CACHE_RETRY_SLEEP_DURATION_MS, MAX_FETCH_TASKS_PER_REQUEST,
    TRANSACTIONS_PER_STORAGE_BLOCK, TRANSIENT_DATA_ERROR_RETRY_SLEEP_DURATION_MS,
};
use crate::transaction::{batch_seqs, Transaction};

verus! {

/// What became of the read of one block of the file store.
#[derive(Clone, Debug, PartialEq, Eq)]
pub enum BlockRead {
    /// The transactions that the store holds of the block, none where it has none.
    Transactions(Vec<Transaction>),
    /// The read failed each time it was tried.
    ReadFailed,
    /// The task that was to read the block did not come to an end.
    TaskFailed,
}

/// What to do for a version once the cache has said what it holds of it.
#[derive(Clone, Debug, PartialEq, Eq)]
pub enum CoveragePlan {
    /// The log is not there yet: wait this many milliseconds, then ask again.
    Wait { millis: u64 },
    /// Read this many transactions from the cache.
    ReadCache { start_version: u64, count: u64 },
    /// Read the blocks that start at these versions from the file store.
    ReadBlocks { start_versions: Vec<u64> },
    /// The cache could not be asked: the subscription ends.
    Fatal,
}

/// What a fetch brought.
#[derive(Clone, Debug, PartialEq, Eq)]
pub enum FetchResult {
    /// Nothing: fetch again, after this many milliseconds where a wait is due.
    NoResults { retry_after_millis: Option<u64> },
    /// One batch or more, none of them empty, in no particular order.
    BatchSuccess(Vec<Vec<Transaction>>),
    /// A task failed: the subscription ends.
    Fatal,
}

/// The first version of the block that holds `version`.
pub open spec fn block_start(version: u64) -> int {
    version - version % TRANSACTIONS_PER_STORAGE_BLOCK
}

/// The number of blocks to ask the file store for: as many as hold `remaining_count`
/// transactions, and never fewer than [`MAX_FETCH_TASKS_PER_REQUEST`].
pub open spec fn task_count(remaining_count: Option<u64>) -> int {
    match remaining_count {
        None => MAX_FETCH_TASKS_PER_REQUEST as int,
        Some(count) => {
            let blocks = (count + TRANSACTIONS_PER_STORAGE_BLOCK - 1)
                / TRANSACTIONS_PER_STORAGE_BLOCK as int;
            if blocks > MAX_FETCH_TASKS_PER_REQUEST {
                blocks
            } else {
                MAX_FETCH_TASKS_PER_REQUEST as int
            }
        },
    }
}

/// The start versions of the blocks to ask for: the block that holds `start_version`
/// and those behind it, as far as versions go.
pub open spec fn task_starts(start_version: u64, remaining_count: Option<u64>) -> Seq<u64> {
    let first = block_start(start_version);
    let within = (u64::MAX - first) / TRANSACTIONS_PER_STORAGE_BLOCK as int + 1;
    let count = if task_count(remaining_count) < within {
        task_count(remaining_count)
    } else {
        within
    };
    Seq::new(count as nat, |i: int| (first + i * TRANSACTIONS_PER_STORAGE_BLOCK) as u64)
}

/// The blocks to ask for start at multiples of the block size, one block apart, and the
/// first of them holds `start_version`.
pub proof fn lemma_task_starts(start_version: u64, remaining_count: Option<u64>)
    ensures
        ({
            let starts = task_starts(start_version, remaining_count);
            &&& 1 <= starts.len() <= task_count(remaining_count)
            &&& starts[0] <= start_version < starts[0] + TRANSACTIONS_PER_STORAGE_BLOCK
            &&& forall|i: int|
                0 <= i < starts.len() ==> (#[trigger] starts[i]) % TRANSACTIONS_PER_STORAGE_BLOCK
                    == 0
            &&& forall|i: int|
                0 <= i < starts.len() - 1 ==> #[trigger] starts[i + 1] == starts[i]
                    + TRANSACTIONS_PER_STORAGE_BLOCK
            &&& starts.len() < task_count(remaining_count) ==> starts.last()
                + TRANSACTIONS_PER_STORAGE_BLOCK > u64::MAX
        }),
{
    let starts = task_starts(start_version, remaining_count);
    let first = block_start(start_version);
    assert(first % 1000 == 0);
    assert forall|i: int| 0 <= i < starts.len() implies (#[trigger] starts[i]) % 1000 == 0 by {
        assert(starts[i] == first + i * 1000);
        assert((first + i * 1000) % 1000 == 0) by (nonlinear_arith)
            requires
                first % 1000 == 0,
        ;
    }
}

/// The first version of the block that holds `version`.
pub fn align_to_block(version: u64) -> (start: u64)
    ensures
        start == block_start(version),
        start % TRANSACTIONS_PER_STORAGE_BLOCK == 0,
        start <= version < start + TRANSACTIONS_PER_STORAGE_BLOCK,
{
    version - version % TRANSACTIONS_PER_STORAGE_BLOCK
}

/// The number of blocks to ask the file store for.
pub fn num_fetch_tasks(remaining_count: Option<u64>) -> (count: u64)
    ensures
        count == task_count(remaining_count),
        count >= MAX_FETCH_TASKS_PER_REQUEST,
{
    match remaining_count {
        None => MAX_FETCH_TASKS_PER_REQUEST,
        Some(count) => {
            let whole: u64 = count / TRANSACTIONS_PER_STORAGE_BLOCK;
            let blocks: u64 = if count % TRANSACTIONS_PER_STORAGE_BLOCK == 0 {
                whole
            } else {
                whole + 1
            };
            if blocks > MAX_FETCH_TASKS_PER_REQUEST {
                blocks
            } else {
                MAX_FETCH_TASKS_PER_REQUEST
            }
        },
    }
}

/// The start versions of the blocks to ask the file store for.
pub fn fetch_task_starts(start_version: u64, remaining_count: Option<u64>) -> (starts: Vec<u64>)
    ensures
        starts@ == task_starts(start_version, remaining_count),
        starts.len() >= 1,
        starts[0] == block_start(start_version),
{
    let first = align_to_block(start_version);
    let wanted = num_fetch_tasks(remaining_count);
    let within: u64 = (u64::MAX - first) / TRANSACTIONS_PER_STORAGE_BLOCK;
    let count: u64 = if wanted - 1 < within {
        wanted
    } else {
        within + 1
    };
    let mut starts: Vec<u64> = Vec::new();
    let mut i: u64 = 0;
    let mut next: u64 = first;
    while i < count
        invariant
            1 <= count <= within + 1,
            within == (u64::MAX - first) / TRANSACTIONS_PER_STORAGE_BLOCK as int,
            i <= count,
            i < count ==> next == first + i * TRANSACTIONS_PER_STORAGE_BLOCK,
            starts.len() == i,
            forall|j: int|
                0 <= j < i ==> #[trigger] starts[j] == first + j * TRANSACTIONS_PER_STORAGE_BLOCK,
        decreases count - i,
    {
        starts.push(next);
        i = i + 1;
        if i < count {
            next = next + TRANSACTIONS_PER_STORAGE_BLOCK;
        }
    }
    proof {
        assert(starts@ =~= task_starts(start_version, remaining_count));
    }
    starts
}

/// What the planner does once the cache has answered a query for `start_version`;
/// `coverage` is `None` where the query failed.
pub open spec fn coverage_plan(
    coverage: Option<CacheCoverageStatus>,
    start_version: u64,
    remaining_count: Option<u64>,
) -> CoveragePlanModel {
    match coverage {
        None => CoveragePlanModel::Fatal,
        Some(CacheCoverageStatus::DataNotReady) => CoveragePlanModel::Wait {
            millis: AHEAD_OF_CACHE_RETRY_SLEEP_DURATION_MS,
        },
        Some(CacheCoverageStatus::CacheHit(count)) => CoveragePlanModel::ReadCache {
            start_version,
            count,
        },
        Some(CacheCoverageStatus::CacheEvicted) => CoveragePlanModel::ReadBlocks {
            start_versions: task_starts(start_version, remaining_count),
        },
    }
}

/// A [`CoveragePlan`] as a mathematical value.
pub enum CoveragePlanModel {
    Wait { millis: u64 },
    ReadCache { start_version: u64, count: u64 },
    ReadBlocks { start_versions: Seq<u64> },
    Fatal,
}

impl View for CoveragePlan {
    type V = CoveragePlanModel;

    open spec fn view(&self) -> CoveragePlanModel {
        match *self {
            CoveragePlan::Wait { millis } => CoveragePlanModel::Wait { millis },
            CoveragePlan::ReadCache { start_version, count } => CoveragePlanModel::ReadCache {
                start_version,
                count,
            },
            CoveragePlan::ReadBlocks { start_versions } => CoveragePlanModel::ReadBlocks {
                start_versions: start_versions@,
            },
            CoveragePlan::Fatal => CoveragePlanModel::Fatal,
        }
    }
}

/// Decides what to do for `start_version` once the cache has answered; `coverage` is
/// `None` where the query failed.
pub fn plan_for_coverage(
    coverage: Option<CacheCoverageStatus>,
    start_version: u64,
    remaining_count: Option<u64>,
) -> (plan: CoveragePlan)
    ensures
        plan@ == coverage_plan(coverage, start_version, remaining_count),
{
    match coverage {
        None => CoveragePlan::Fatal,
        Some(CacheCoverageStatus::DataNotReady) => CoveragePlan::Wait {
            millis: AHEAD_OF_CACHE_RETRY_SLEEP_DURATION_MS,
        },
        Some(CacheCoverageStatus::CacheHit(count)) => CoveragePlan::ReadCache {
            start_version,
            count,
        },
        Some(CacheCoverageStatus::CacheEvicted) => CoveragePlan::ReadBlocks {
            start_versions: fetch_task_starts(start_version, remaining_count),
        },
    }
}

/// A [`FetchResult`] as a mathematical value.
pub enum FetchResultModel {
    NoResults { retry_after_millis: Option<u64> },
    BatchSuccess(Seq<Seq<Transaction>>),
    Fatal,
}

impl View for FetchResult {
    type V = FetchResultModel;

    open spec fn view(&self) -> FetchResultModel {
        match *self {
            FetchResult::NoResults { retry_after_millis } => FetchResultModel::NoResults {
                retry_after_millis,
            },
            FetchResult::BatchSuccess(batches) => FetchResultModel::BatchSuccess(
                batch_seqs(batches@),
            ),
            FetchResult::Fatal => FetchResultModel::Fatal,
        }
    }
}

/// One of the tasks did not come to an end.
pub open spec fn any_task_failed(reads: Seq<BlockRead>) -> bool {
    exists|i: int| 0 <= i < reads.len() && (#[trigger] reads[i]) is TaskFailed
}

/// There were reads, and each of them failed.
pub open spec fn all_reads_failed(reads: Seq<BlockRead>) -> bool {
    reads.len() > 0 && forall|i: int| 0 <= i < reads.len() ==> (#[trigger] reads[i]) is ReadFailed
}

/// The batches that the reads brought, in the order of the reads, without the empty
/// ones.
pub open spec fn fetched_batches(reads: Seq<BlockRead>) -> Seq<Seq<Transaction>>
    decreases reads.len(),
{
    if reads.len() == 0 {
        Seq::empty()
    } else {
        let before = fetched_batches(reads.drop_last());
        match reads.last() {
            BlockRead::Transactions(batch) => if batch@.len() > 0 {
                before.push(batch@)
            } else {
                before
            },
            _ => before,
        }
    }
}

/// What a fetch from the file store brought: a failed task ends the subscription; a
/// failed read and an empty block are dropped; where nothing is left there are no
/// results, and a wait is due where every read failed.
pub open spec fn blocks_result(reads: Seq<BlockRead>) -> FetchResultModel {
    if any_task_failed(reads) {
        FetchResultModel::Fatal
    } else if fetched_batches(reads).len() > 0 {
        FetchResultModel::BatchSuccess(fetched_batches(reads))
    } else if all_reads_failed(reads) {
        FetchResultModel::NoResults {
            retry_after_millis: Some(TRANSIENT_DATA_ERROR_RETRY_SLEEP_DURATION_MS),
        }
    } else {
        FetchResultModel::NoResults { retry_after_millis: None }
    }
}

/// Collects what the reads of the blocks brought.
pub fn collect_blocks(reads: Vec<BlockRead>) -> (result: FetchResult)
    ensures
        result@ == blocks_result(reads@),
{
    let ghost all = reads@;
    let total: usize = reads.len();
    let mut rest = reads;
    let mut batches: Vec<Vec<Transaction>> = Vec::new();
    let mut only_failed_reads: bool = true;
    let mut done: usize = 0;
    proof {
        assert(all.take(0) =~= Seq::<BlockRead>::empty());
        assert(all.skip(0) =~= all);
        assert(batch_seqs(batches@) =~= Seq::<Seq<Transaction>>::empty());
    }
    while rest.len() > 0
        invariant
            all == reads@,
            all.len() == total,
            done + rest.len() == all.len(),
            rest@ == all.skip(done as int),
            batch_seqs(batches@) == fetched_batches(all.take(done as int)),
            !any_task_failed(all.take(done as int)),
            only_failed_reads <==> (forall|i: int|
                0 <= i < done ==> (#[trigger] all[i]) is ReadFailed),
        decreases rest.len(),
    {
        let ghost before = batch_seqs(batches@);
        let read = rest.remove(0);
        proof {
            assert(read == all[done as int]);
            assert(rest@ =~= all.skip(done + 1));
            assert(all.take(done + 1).drop_last() =~= all.take(done as int));
            assert(all.take(done + 1).last() == read);
        }
        match read {
            BlockRead::Transactions(batch) => {
                only_failed_reads = false;
                if batch.len() > 0 {
                    batches.push(batch);
                    proof {
                        assert(batch_seqs(batches@) =~= before.push(batch@));
                    }
                }
            },
            BlockRead::ReadFailed => {},
            BlockRead::TaskFailed => {
                proof {
                    assert(all[done as int] is TaskFailed);
                }
                return FetchResult::Fatal;
            },
        }
        proof {
            assert forall|i: int| 0 <= i < done + 1 implies !(#[trigger] all.take(done + 1)[i]
                is TaskFailed) by {
                if i < done {
                    assert(all.take(done as int)[i] == all[i]);
                }
            }
        }
        done += 1;
    }
    proof {
        assert(all.take(done as int) =~= all);
    }
    if batches.len() > 0 {
        FetchResult::BatchSuccess(batches)
    } else if total > 0 && only_failed_reads {
        FetchResult::NoResults {
            retry_after_millis: Some(TRANSIENT_DATA_ERROR_RETRY_SLEEP_DURATION_MS),
        }
    } else {
        FetchResult::NoResults { retry_after_millis: None }
    }
}

/// What a read from the cache brought that the cache had said it could serve: the
/// batch, no results where it is empty, and where the read failed the blocks to ask the
/// file store for instead.
pub open spec fn cache_read_result(read: Option<Vec<Transaction>>) -> Option<FetchResultModel> {
    match read {
        Some(batch) => if batch@.len() > 0 {
            Some(FetchResultModel::BatchSuccess(seq![batch@]))
        } else {
            Some(FetchResultModel::NoResults { retry_after_millis: None })
        },
        None => None,
    }
}

/// Takes what a read from the cache brought; `read` is `None` where the read failed,
/// and the result is `None` where the file store has to be asked instead.
pub fn collect_cache_read(read: Option<Vec<Transaction>>) -> (result: Option<FetchResult>)
    ensures
        match result {
            Some(r) => cache_read_result(read) == Some(r@),
            None => cache_read_result(read) is None,
        },
{
    match read {
        Some(batch) => {
            if batch.len() > 0 {
                let mut batches: Vec<Vec<Transaction>> = Vec::new();
                let ghost b = batch@;
                batches.push(batch);
                proof {
                    assert(batch_seqs(batches@) =~= seq![b]);
                }
                Some(FetchResult::BatchSuccess(batches))
            } else {
                Some(FetchResult::NoResults { retry_after_millis: None })
            }
        },
        None => None,
    }
}

} // verus!
