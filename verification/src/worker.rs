//! The subscription worker: the state of one subscription and what it does next.
//!
//! The worker does no work of its own on the outside. It is told what happened, as an
//! [`Event`], and answers with what is to be done, as an [`Action`]; whoever drives it
//! performs the action and comes back with the event that ended it.

use vstd::prelude::*;
use crate::cache::CacheCoverageStatus;
use crate::config::{
    FILE_STORE_METADATA_WAIT_MS, NUM_DATA_FETCH_RETRIES, RESPONSE_CHANNEL_SEND_TIMEOUT_SECS,
    SHORT_CONNECTION_DURATION_IN_SECS,
};
use crate::delivery::{prepare, prepared, FailureReason, Prepared, PreparedModel};
use crate::planner::{
    blocks_result, cache_read_result, collect_blocks, collect_cache_read, coverage_plan,
    fetch_task_starts, plan_for_coverage, task_starts, BlockRead, CoveragePlan,
    CoveragePlanModel, FetchResult, FetchResultModel,
};
use crate::response::{response_seqs, TransactionsResponse};
use crate::status::Status;
use crate::transaction::{batch_seqs, Transaction};

verus! {

/// How a subscription ended.
#[derive(Clone, Copy, Debug, PartialEq, Eq)]
pub enum Outcome {
    /// Everything asked for was delivered.
    Done,
    /// The subscriber left, or did not take a response in time.
    Disconnected,
    /// The subscription could not go on.
    Failed(FailureReason),
}

/// Where a subscription stands.
#[derive(Clone, Copy, Debug, PartialEq, Eq)]
pub enum Phase {
    /// A connection to the cache is being made.
    Connecting,
    /// The metadata of the file store is being read.
    AwaitingMetadata,
    /// The file store has no metadata yet; the worker waits to look again.
    MetadataWait,
    /// The chain id of the cache is being read.
    AwaitingChainId,
    /// The subscriber is being told why the subscription cannot be served.
    Closing(FailureReason),
    /// The cache is being asked what it holds of the current version.
    AwaitingCoverage,
    /// Transactions are being read from the cache.
    AwaitingCacheRead,
    /// Blocks are being read from the file store.
    AwaitingBlocks,
    /// The worker waits before it fetches again.
    Waiting,
    /// A response is on its way to the subscriber.
    Sending,
    /// The subscription has ended.
    Finished(Outcome),
}

/// What the file store says of itself.
#[derive(Clone, Copy, Debug, PartialEq, Eq)]
pub struct FileStoreMetadata {
    pub chain_id: u64,
    /// The first version of the newest block.
    pub latest_block: u64,
}

/// What happened on the outside.
#[derive(Debug)]
pub enum Event {
    /// The connection to the cache stands.
    CacheConnected,
    /// No connection to the cache could be made.
    CacheConnectFailed,
    /// The metadata of the file store, `None` where it has none yet.
    FileStoreMetadata(Option<FileStoreMetadata>),
    /// The chain id of the cache, `None` where it could not be read.
    CacheChainId(Option<u64>),
    /// The time to wait is over.
    Woke,
    /// What the cache holds of the version asked for, `None` where it could not say.
    Coverage(Option<CacheCoverageStatus>),
    /// What was read from the cache, `None` where the read failed.
    CacheRead(Option<Vec<Transaction>>),
    /// What became of the reads of the blocks, in any order.
    Blocks(Vec<BlockRead>),
    /// The subscriber has room for the response: it is on its way.
    Sent,
    /// The subscriber had no room for the response in time.
    SendTimedOut,
    /// The subscriber has left.
    ChannelClosed,
    /// The attempt to tell the subscriber a status is over, however it ended.
    StatusSent,
}

/// What is to be done on the outside.
#[derive(Debug)]
pub enum Action {
    /// Connect to the cache; then `CacheConnected` or `CacheConnectFailed`.
    ConnectCache,
    /// Read the metadata of the file store; then `FileStoreMetadata`.
    PollFileStoreMetadata,
    /// Read the chain id of the cache; then `CacheChainId`.
    ReadCacheChainId,
    /// Wait this many milliseconds; then `Woke`.
    Sleep { millis: u64 },
    /// Ask the cache what it holds of the version; then `Coverage`.
    QueryCoverage { version: u64 },
    /// Read `count` transactions from the cache; then `CacheRead`.
    ReadCache { start_version: u64, count: u64 },
    /// Read the blocks that start at these versions from the file store, all at once,
    /// each read tried up to `retries` times; then `Blocks`.
    ReadBlocks { start_versions: Vec<u64>, retries: u8 },
    /// Send the response, waiting no longer than `timeout_secs` seconds for room; then
    /// `Sent`, `SendTimedOut` or `ChannelClosed`.
    Send { response: TransactionsResponse, timeout_secs: u64 },
    /// Tell the subscriber the status, waiting no longer than `timeout_secs` seconds; then
    /// `StatusSent`.
    SendStatus { status: Status, timeout_secs: u64 },
    /// End the subscription.
    Stop(Outcome),
}

/// An [`Action`] as a mathematical value.
pub enum ActionModel {
    ConnectCache,
    PollFileStoreMetadata,
    ReadCacheChainId,
    Sleep { millis: u64 },
    QueryCoverage { version: u64 },
    ReadCache { start_version: u64, count: u64 },
    ReadBlocks { start_versions: Seq<u64>, retries: u8 },
    Send { response: (Option<u64>, Seq<Transaction>), timeout_secs: u64 },
    SendStatus { status: Status, timeout_secs: u64 },
    Stop(Outcome),
}

impl View for Action {
    type V = ActionModel;

    open spec fn view(&self) -> ActionModel {
        match *self {
            Action::ConnectCache => ActionModel::ConnectCache,
            Action::PollFileStoreMetadata => ActionModel::PollFileStoreMetadata,
            Action::ReadCacheChainId => ActionModel::ReadCacheChainId,
            Action::Sleep { millis } => ActionModel::Sleep { millis },
            Action::QueryCoverage { version } => ActionModel::QueryCoverage { version },
            Action::ReadCache { start_version, count } => ActionModel::ReadCache {
                start_version,
                count,
            },
            Action::ReadBlocks { start_versions, retries } => ActionModel::ReadBlocks {
                start_versions: start_versions@,
                retries,
            },
            Action::Send { response, timeout_secs } => ActionModel::Send {
                response: (response.chain_id, response.transactions@),
                timeout_secs,
            },
            Action::SendStatus { status, timeout_secs } => ActionModel::SendStatus {
                status,
                timeout_secs,
            },
            Action::Stop(outcome) => ActionModel::Stop(outcome),
        }
    }
}

/// The state of one subscription.
#[derive(Debug)]
pub struct SubscriptionWorker {
    pub phase: Phase,
    /// The version that the subscriber is to get next.
    pub current_version: u64,
    /// How many transactions are still asked for, `None` for all there will ever be.
    pub remaining_count: Option<u64>,
    /// The chain id of the file store, once its metadata has been read.
    pub file_store_chain_id: u64,
    /// The chain id of the cache, once it has been read.
    pub chain_id: u64,
    /// The number of transactions in the response that is on its way.
    pub in_flight: usize,
    /// The responses of this cycle that have not been sent yet.
    pub outbox: Vec<TransactionsResponse>,
}

/// A [`SubscriptionWorker`] as a mathematical value.
pub struct WorkerModel {
    pub phase: Phase,
    pub current_version: u64,
    pub remaining_count: Option<u64>,
    pub file_store_chain_id: u64,
    pub chain_id: u64,
    pub in_flight: nat,
    pub outbox: Seq<(Option<u64>, Seq<Transaction>)>,
}

impl View for SubscriptionWorker {
    type V = WorkerModel;

    open spec fn view(&self) -> WorkerModel {
        WorkerModel {
            phase: self.phase,
            current_version: self.current_version,
            remaining_count: self.remaining_count,
            file_store_chain_id: self.file_store_chain_id,
            chain_id: self.chain_id,
            in_flight: self.in_flight as nat,
            outbox: response_seqs(self.outbox@),
        }
    }
}

/// The worker of a new subscription, which is about to connect to the cache.
pub open spec fn started(starting_version: u64, transactions_count: Option<u64>) -> WorkerModel {
    WorkerModel {
        phase: Phase::Connecting,
        current_version: starting_version,
        remaining_count: transactions_count,
        file_store_chain_id: 0,
        chain_id: 0,
        in_flight: 0,
        outbox: Seq::empty(),
    }
}

/// The subscription ends.
pub open spec fn stop(w: WorkerModel, outcome: Outcome) -> (WorkerModel, ActionModel) {
    (
        WorkerModel { phase: Phase::Finished(outcome), in_flight: 0, outbox: Seq::empty(), ..w },
        ActionModel::Stop(outcome),
    )
}

/// The subscriber is told a status before the subscription ends.
pub open spec fn close(w: WorkerModel, status: Status, reason: FailureReason) -> (
    WorkerModel,
    ActionModel,
) {
    (
        WorkerModel { phase: Phase::Closing(reason), ..w },
        ActionModel::SendStatus { status, timeout_secs: RESPONSE_CHANNEL_SEND_TIMEOUT_SECS },
    )
}

/// A cycle starts: the cache is asked what it holds of the current version.
pub open spec fn ask_coverage(w: WorkerModel) -> (WorkerModel, ActionModel) {
    (
        WorkerModel { phase: Phase::AwaitingCoverage, in_flight: 0, ..w },
        ActionModel::QueryCoverage { version: w.current_version },
    )
}

/// The worker waits before the next cycle.
pub open spec fn wait(w: WorkerModel, millis: u64) -> (WorkerModel, ActionModel) {
    (WorkerModel { phase: Phase::Waiting, ..w }, ActionModel::Sleep { millis })
}

/// The file store is asked for the blocks from the current version on.
pub open spec fn read_blocks(w: WorkerModel) -> (WorkerModel, ActionModel) {
    (
        WorkerModel { phase: Phase::AwaitingBlocks, ..w },
        ActionModel::ReadBlocks {
            start_versions: task_starts(w.current_version, w.remaining_count),
            retries: NUM_DATA_FETCH_RETRIES,
        },
    )
}

/// The next response of the outbox is sent; where there is none the cycle is over.
pub open spec fn send_next(w: WorkerModel) -> (WorkerModel, ActionModel) {
    if w.outbox.len() == 0 {
        ask_coverage(w)
    } else {
        (
            WorkerModel {
                phase: Phase::Sending,
                in_flight: w.outbox[0].1.len(),
                outbox: w.outbox.drop_first(),
                ..w
            },
            ActionModel::Send {
                response: w.outbox[0],
                timeout_secs: RESPONSE_CHANNEL_SEND_TIMEOUT_SECS,
            },
        )
    }
}

/// The fetched batches are prepared and the first response is sent.
pub open spec fn deliver(w: WorkerModel, batches: Seq<Seq<Transaction>>) -> (
    WorkerModel,
    ActionModel,
) {
    match prepared(batches, w.current_version, w.remaining_count, w.chain_id) {
        PreparedModel::Nothing => ask_coverage(w),
        PreparedModel::Done => stop(w, Outcome::Done),
        PreparedModel::Failed(reason) => stop(w, Outcome::Failed(reason)),
        PreparedModel::Deliver { responses, remaining_count } => send_next(
            WorkerModel { remaining_count, outbox: responses, ..w },
        ),
    }
}

/// What follows a fetch.
pub open spec fn after_fetch(w: WorkerModel, result: FetchResultModel) -> (
    WorkerModel,
    ActionModel,
) {
    match result {
        FetchResultModel::Fatal => stop(w, Outcome::Failed(FailureReason::FetchTask)),
        FetchResultModel::NoResults { retry_after_millis: Some(millis) } => wait(w, millis),
        FetchResultModel::NoResults { retry_after_millis: None } => ask_coverage(w),
        FetchResultModel::BatchSuccess(batches) => deliver(w, batches),
    }
}

/// What follows the answer of the cache to the question what it holds.
pub open spec fn after_coverage(w: WorkerModel, coverage: Option<CacheCoverageStatus>) -> (
    WorkerModel,
    ActionModel,
) {
    match coverage_plan(coverage, w.current_version, w.remaining_count) {
        CoveragePlanModel::Fatal => stop(w, Outcome::Failed(FailureReason::CoverageQuery)),
        CoveragePlanModel::Wait { millis } => wait(w, millis),
        CoveragePlanModel::ReadCache { start_version, count } => (
            WorkerModel { phase: Phase::AwaitingCacheRead, ..w },
            ActionModel::ReadCache { start_version, count },
        ),
        CoveragePlanModel::ReadBlocks { start_versions } => (
            WorkerModel { phase: Phase::AwaitingBlocks, ..w },
            ActionModel::ReadBlocks { start_versions, retries: NUM_DATA_FETCH_RETRIES },
        ),
    }
}

/// What follows the news that the response on its way has been taken: the current
/// version moves behind it and the next response is sent. Where there is no version
/// behind it, the subscription is done if nothing more was asked for, and fails else.
pub open spec fn after_sent(w: WorkerModel) -> (WorkerModel, ActionModel) {
    if w.current_version + w.in_flight > u64::MAX {
        if w.remaining_count == Some(0u64) && w.outbox.len() == 0 {
            stop(w, Outcome::Done)
        } else {
            stop(w, Outcome::Failed(FailureReason::VersionsExhausted))
        }
    } else {
        send_next(
            WorkerModel {
                current_version: (w.current_version + w.in_flight) as u64,
                in_flight: 0,
                ..w
            },
        )
    }
}

/// The state that follows an event, and the action that the worker asks for.
pub open spec fn step_spec(w: WorkerModel, event: Event) -> (WorkerModel, ActionModel) {
    let unexpected = stop(w, Outcome::Failed(FailureReason::UnexpectedEvent));
    match w.phase {
        Phase::Finished(outcome) => (w, ActionModel::Stop(outcome)),
        Phase::Connecting => match event {
            Event::CacheConnected => (
                WorkerModel { phase: Phase::AwaitingMetadata, ..w },
                ActionModel::PollFileStoreMetadata,
            ),
            Event::CacheConnectFailed => close(
                w,
                Status::CannotConnectToCache,
                FailureReason::CacheConnect,
            ),
            _ => unexpected,
        },
        Phase::AwaitingMetadata => match event {
            Event::FileStoreMetadata(Some(metadata)) => (
                WorkerModel {
                    phase: Phase::AwaitingChainId,
                    file_store_chain_id: metadata.chain_id,
                    ..w
                },
                ActionModel::ReadCacheChainId,
            ),
            Event::FileStoreMetadata(None) => (
                WorkerModel { phase: Phase::MetadataWait, ..w },
                ActionModel::Sleep { millis: FILE_STORE_METADATA_WAIT_MS },
            ),
            _ => unexpected,
        },
        Phase::MetadataWait => match event {
            Event::Woke => (
                WorkerModel { phase: Phase::AwaitingMetadata, ..w },
                ActionModel::PollFileStoreMetadata,
            ),
            _ => unexpected,
        },
        Phase::AwaitingChainId => match event {
            Event::CacheChainId(Some(chain_id)) => if chain_id == w.file_store_chain_id {
                ask_coverage(WorkerModel { chain_id, ..w })
            } else {
                close(
                    WorkerModel { chain_id, ..w },
                    Status::ChainIdMismatch,
                    FailureReason::ChainIdMismatch,
                )
            },
            Event::CacheChainId(None) => close(
                w,
                Status::CannotGetChainId,
                FailureReason::CacheChainId,
            ),
            _ => unexpected,
        },
        Phase::Closing(reason) => stop(w, Outcome::Failed(reason)),
        Phase::AwaitingCoverage => match event {
            Event::Coverage(coverage) => after_coverage(w, coverage),
            _ => unexpected,
        },
        Phase::AwaitingCacheRead => match event {
            Event::CacheRead(read) => match cache_read_result(read) {
                Some(result) => after_fetch(w, result),
                None => read_blocks(w),
            },
            _ => unexpected,
        },
        Phase::AwaitingBlocks => match event {
            Event::Blocks(reads) => after_fetch(w, blocks_result(reads@)),
            _ => unexpected,
        },
        Phase::Waiting => match event {
            Event::Woke => ask_coverage(w),
            _ => unexpected,
        },
        Phase::Sending => match event {
            Event::Sent => after_sent(w),
            Event::SendTimedOut => stop(w, Outcome::Disconnected),
            Event::ChannelClosed => stop(w, Outcome::Disconnected),
            _ => unexpected,
        },
    }
}

/// Tells whether a subscription that ended in this way, this many seconds after it
/// began, counts as a short connection: one that ended early without having delivered
/// all that was asked for.
pub fn is_short_connection(outcome: Outcome, elapsed_secs: u64) -> (short: bool)
    ensures
        short == (!(outcome is Done) && elapsed_secs < SHORT_CONNECTION_DURATION_IN_SECS),
{
    match outcome {
        Outcome::Done => false,
        _ => elapsed_secs < SHORT_CONNECTION_DURATION_IN_SECS,
    }
}

impl SubscriptionWorker {
    /// The worker of a new subscription and its first action, to connect to the cache.
    pub fn new(starting_version: u64, transactions_count: Option<u64>) -> (r: (
        SubscriptionWorker,
        Action,
    ))
        ensures
            r.0@ == started(starting_version, transactions_count),
            r.1@ == ActionModel::ConnectCache,
    {
        let worker = SubscriptionWorker {
            phase: Phase::Connecting,
            current_version: starting_version,
            remaining_count: transactions_count,
            file_store_chain_id: 0,
            chain_id: 0,
            in_flight: 0,
            outbox: Vec::new(),
        };
        proof {
            assert(response_seqs(worker.outbox@) =~= Seq::empty());
        }
        (worker, Action::ConnectCache)
    }

    fn stop(&mut self, outcome: Outcome) -> (action: Action)
        ensures
            (final(self)@, action@) == stop(old(self)@, outcome),
    {
        self.phase = Phase::Finished(outcome);
        self.in_flight = 0;
        self.outbox = Vec::new();
        proof {
            assert(response_seqs(self.outbox@) =~= Seq::empty());
        }
        Action::Stop(outcome)
    }

    fn close(&mut self, status: Status, reason: FailureReason) -> (action: Action)
        ensures
            (final(self)@, action@) == close(old(self)@, status, reason),
    {
        self.phase = Phase::Closing(reason);
        Action::SendStatus { status, timeout_secs: RESPONSE_CHANNEL_SEND_TIMEOUT_SECS }
    }

    fn ask_coverage(&mut self) -> (action: Action)
        ensures
            (final(self)@, action@) == ask_coverage(old(self)@),
    {
        self.phase = Phase::AwaitingCoverage;
        self.in_flight = 0;
        Action::QueryCoverage { version: self.current_version }
    }

    fn wait(&mut self, millis: u64) -> (action: Action)
        ensures
            (final(self)@, action@) == wait(old(self)@, millis),
    {
        self.phase = Phase::Waiting;
        Action::Sleep { millis }
    }

    fn read_blocks(&mut self) -> (action: Action)
        ensures
            (final(self)@, action@) == read_blocks(old(self)@),
    {
        self.phase = Phase::AwaitingBlocks;
        Action::ReadBlocks {
            start_versions: fetch_task_starts(self.current_version, self.remaining_count),
            retries: NUM_DATA_FETCH_RETRIES,
        }
    }

    fn send_next(&mut self) -> (action: Action)
        ensures
            (final(self)@, action@) == send_next(old(self)@),
    {
        if self.outbox.len() == 0 {
            self.ask_coverage()
        } else {
            let ghost before = response_seqs(self.outbox@);
            let response = self.outbox.remove(0);
            proof {
                assert(before[0] == (response.chain_id, response.transactions@));
                assert(response_seqs(self.outbox@) =~= before.drop_first());
            }
            self.phase = Phase::Sending;
            self.in_flight = response.transactions.len();
            Action::Send { response, timeout_secs: RESPONSE_CHANNEL_SEND_TIMEOUT_SECS }
        }
    }

    fn deliver(&mut self, batches: Vec<Vec<Transaction>>) -> (action: Action)
        ensures
            (final(self)@, action@) == deliver(old(self)@, batch_seqs(batches@)),
    {
        match prepare(batches, self.current_version, self.remaining_count, self.chain_id) {
            Prepared::Nothing => self.ask_coverage(),
            Prepared::Done => self.stop(Outcome::Done),
            Prepared::Failed(reason) => self.stop(Outcome::Failed(reason)),
            Prepared::Deliver { responses, remaining_count } => {
                self.remaining_count = remaining_count;
                self.outbox = responses;
                self.send_next()
            },
        }
    }

    fn after_fetch(&mut self, result: FetchResult) -> (action: Action)
        ensures
            (final(self)@, action@) == after_fetch(old(self)@, result@),
    {
        match result {
            FetchResult::Fatal => self.stop(Outcome::Failed(FailureReason::FetchTask)),
            FetchResult::NoResults { retry_after_millis: Some(millis) } => self.wait(millis),
            FetchResult::NoResults { retry_after_millis: None } => self.ask_coverage(),
            FetchResult::BatchSuccess(batches) => self.deliver(batches),
        }
    }

    fn after_coverage(&mut self, coverage: Option<CacheCoverageStatus>) -> (action: Action)
        ensures
            (final(self)@, action@) == after_coverage(old(self)@, coverage),
    {
        match plan_for_coverage(coverage, self.current_version, self.remaining_count) {
            CoveragePlan::Fatal => self.stop(Outcome::Failed(FailureReason::CoverageQuery)),
            CoveragePlan::Wait { millis } => self.wait(millis),
            CoveragePlan::ReadCache { start_version, count } => {
                self.phase = Phase::AwaitingCacheRead;
                Action::ReadCache { start_version, count }
            },
            CoveragePlan::ReadBlocks { start_versions } => {
                self.phase = Phase::AwaitingBlocks;
                Action::ReadBlocks { start_versions, retries: NUM_DATA_FETCH_RETRIES }
            },
        }
    }

    fn after_sent(&mut self) -> (action: Action)
        ensures
            (final(self)@, action@) == after_sent(old(self)@),
    {
        let next: Option<u64> = if self.in_flight as u128 > u64::MAX as u128 {
            None
        } else {
            self.current_version.checked_add(self.in_flight as u64)
        };
        match next {
            Some(version) => {
                self.current_version = version;
                self.in_flight = 0;
                self.send_next()
            },
            None => {
                let done: bool = match self.remaining_count {
                    Some(0) => self.outbox.len() == 0,
                    _ => false,
                };
                if done {
                    self.stop(Outcome::Done)
                } else {
                    self.stop(Outcome::Failed(FailureReason::VersionsExhausted))
                }
            },
        }
    }

    /// Takes what happened and tells what to do next.
    pub fn step(&mut self, event: Event) -> (action: Action)
        ensures
            (final(self)@, action@) == step_spec(old(self)@, event),
    {
        match self.phase {
            Phase::Finished(outcome) => Action::Stop(outcome),
            Phase::Connecting => match event {
                Event::CacheConnected => {
                    self.phase = Phase::AwaitingMetadata;
                    Action::PollFileStoreMetadata
                },
                Event::CacheConnectFailed => self.close(
                    Status::CannotConnectToCache,
                    FailureReason::CacheConnect,
                ),
                _ => self.stop(Outcome::Failed(FailureReason::UnexpectedEvent)),
            },
            Phase::AwaitingMetadata => match event {
                Event::FileStoreMetadata(Some(metadata)) => {
                    self.phase = Phase::AwaitingChainId;
                    self.file_store_chain_id = metadata.chain_id;
                    Action::ReadCacheChainId
                },
                Event::FileStoreMetadata(None) => {
                    self.phase = Phase::MetadataWait;
                    Action::Sleep { millis: FILE_STORE_METADATA_WAIT_MS }
                },
                _ => self.stop(Outcome::Failed(FailureReason::UnexpectedEvent)),
            },
            Phase::MetadataWait => match event {
                Event::Woke => {
                    self.phase = Phase::AwaitingMetadata;
                    Action::PollFileStoreMetadata
                },
                _ => self.stop(Outcome::Failed(FailureReason::UnexpectedEvent)),
            },
            Phase::AwaitingChainId => match event {
                Event::CacheChainId(Some(chain_id)) => {
                    self.chain_id = chain_id;
                    if chain_id == self.file_store_chain_id {
                        self.ask_coverage()
                    } else {
                        self.close(Status::ChainIdMismatch, FailureReason::ChainIdMismatch)
                    }
                },
                Event::CacheChainId(None) => self.close(
                    Status::CannotGetChainId,
                    FailureReason::CacheChainId,
                ),
                _ => self.stop(Outcome::Failed(FailureReason::UnexpectedEvent)),
            },
            Phase::Closing(reason) => self.stop(Outcome::Failed(reason)),
            Phase::AwaitingCoverage => match event {
                Event::Coverage(coverage) => self.after_coverage(coverage),
                _ => self.stop(Outcome::Failed(FailureReason::UnexpectedEvent)),
            },
            Phase::AwaitingCacheRead => match event {
                Event::CacheRead(read) => match collect_cache_read(read) {
                    Some(result) => self.after_fetch(result),
                    None => self.read_blocks(),
                },
                _ => self.stop(Outcome::Failed(FailureReason::UnexpectedEvent)),
            },
            Phase::AwaitingBlocks => match event {
                Event::Blocks(reads) => {
                    let result = collect_blocks(reads);
                    self.after_fetch(result)
                },
                _ => self.stop(Outcome::Failed(FailureReason::UnexpectedEvent)),
            },
            Phase::Waiting => match event {
                Event::Woke => self.ask_coverage(),
                _ => self.stop(Outcome::Failed(FailureReason::UnexpectedEvent)),
            },
            Phase::Sending => match event {
                Event::Sent => self.after_sent(),
                Event::SendTimedOut => self.stop(Outcome::Disconnected),
                Event::ChannelClosed => self.stop(Outcome::Disconnected),
                _ => self.stop(Outcome::Failed(FailureReason::UnexpectedEvent)),
            },
        }
    }
}

} // verus!
