//! From fetched batches to the responses of one cycle: the batches are merged, what lies
//! before the version that the subscriber waits for is dropped, what goes beyond the
//! count it asked for is cut, and the rest is put into responses.

use vstd::prelude::*;
use crate::response::{
    get_transactions_responses_builder, response_seqs, responses_for, ChunkError,
    TransactionsResponse,
};
use crate::sequencer::{sequence, sequence_batches, SequenceError};
use crate::transaction::{batch_seqs, Transaction};

verus! {

/// Why a subscription failed.
#[derive(Clone, Copy, Debug, PartialEq, Eq)]
pub enum FailureReason {
    /// No connection to the cache could be made.
    CacheConnect,
    /// The cache did not tell its chain id.
    CacheChainId,
    /// The cache and the file store are of different chains.
    ChainIdMismatch,
    /// The cache could not say what it holds.
    CoverageQuery,
    /// A task that read from the file store did not come to an end.
    FetchTask,
    /// The fetched batches could not be merged.
    Sequence(SequenceError),
    /// The fetched transactions start behind the version that is due.
    StartsAhead { expected: u64, found: u64 },
    /// A transaction is too large for a response.
    Chunk(ChunkError),
    /// The last version there can be has been delivered.
    VersionsExhausted,
    /// An event came that the state of the subscription does not allow.
    UnexpectedEvent,
}

/// What one cycle has to deliver.
#[derive(Debug)]
pub enum Prepared {
    /// Nothing that the subscriber has not had: fetch again.
    Nothing,
    /// Everything asked for has been delivered: the subscription is done.
    Done,
    /// The subscription fails.
    Failed(FailureReason),
    /// These responses, in this order; the count goes down to `remaining_count`.
    Deliver { responses: Vec<TransactionsResponse>, remaining_count: Option<u64> },
}

/// A [`Prepared`] as a mathematical value.
pub enum PreparedModel {
    Nothing,
    Done,
    Failed(FailureReason),
    Deliver { responses: Seq<(Option<u64>, Seq<Transaction>)>, remaining_count: Option<u64> },
}

impl View for Prepared {
    type V = PreparedModel;

    open spec fn view(&self) -> PreparedModel {
        match *self {
            Prepared::Nothing => PreparedModel::Nothing,
            Prepared::Done => PreparedModel::Done,
            Prepared::Failed(reason) => PreparedModel::Failed(reason),
            Prepared::Deliver { responses, remaining_count } => PreparedModel::Deliver {
                responses: response_seqs(responses@),
                remaining_count,
            },
        }
    }
}

/// The run without its leading `version - first` transactions, where `first` is its first
/// version: of a dense run, the transactions from `version` on.
pub open spec fn trim_below(run: Seq<Transaction>, version: u64) -> Seq<Transaction> {
    if run.len() == 0 || run[0].version >= version {
        run
    } else if version - run[0].version >= run.len() {
        Seq::empty()
    } else {
        run.skip(version - run[0].version)
    }
}

/// The transactions to deliver of a run when `remaining_count` are still asked for: all
/// of them, or the first `remaining_count` where the run is longer.
pub open spec fn kept_of(run: Seq<Transaction>, remaining_count: Option<u64>) -> Seq<
    Transaction,
> {
    match remaining_count {
        Some(count) => if count < run.len() {
            run.take(count as int)
        } else {
            run
        },
        None => run,
    }
}

/// The count that is still asked for once a run has been taken.
pub open spec fn left_of(run: Seq<Transaction>, remaining_count: Option<u64>) -> Option<u64> {
    match remaining_count {
        Some(count) => if count < run.len() {
            Some(0u64)
        } else {
            Some((count - run.len()) as u64)
        },
        None => None,
    }
}

/// What one cycle has to deliver of the batches that were fetched for `current_version`.
pub open spec fn prepared(
    batches: Seq<Seq<Transaction>>,
    current_version: u64,
    remaining_count: Option<u64>,
    chain_id: u64,
) -> PreparedModel {
    match sequence(batches) {
        Err(e) => PreparedModel::Failed(FailureReason::Sequence(e)),
        Ok(merged) => {
            let fresh = trim_below(merged.transactions, current_version);
            if remaining_count == Some(0u64) {
                PreparedModel::Done
            } else if fresh.len() == 0 {
                PreparedModel::Nothing
            } else if fresh[0].version != current_version {
                PreparedModel::Failed(
                    FailureReason::StartsAhead {
                        expected: current_version,
                        found: fresh[0].version,
                    },
                )
            } else {
                match responses_for(kept_of(fresh, remaining_count), Some(chain_id)) {
                    Err(e) => PreparedModel::Failed(FailureReason::Chunk(e)),
                    Ok(responses) => PreparedModel::Deliver {
                        responses,
                        remaining_count: left_of(fresh, remaining_count),
                    },
                }
            }
        },
    }
}

/// Drops the transactions before `version` from the front of a run.
pub fn trim_to_version(run: Vec<Transaction>, version: u64) -> (fresh: Vec<Transaction>)
    ensures
        fresh@ == trim_below(run@, version),
{
    if run.len() == 0 || run[0].version >= version {
        run
    } else {
        let behind: u64 = version - run[0].version;
        if behind >= run.len() as u64 {
            Vec::new()
        } else {
            let mut head = run;
            head.split_off(behind as usize)
        }
    }
}

/// Cuts a run to the count that is still asked for, and tells what is asked for after
/// it.
pub fn truncate_to_count(run: Vec<Transaction>, remaining_count: Option<u64>) -> (r: (
    Vec<Transaction>,
    Option<u64>,
))
    ensures
        r.0@ == kept_of(run@, remaining_count),
        r.1 == left_of(run@, remaining_count),
{
    match remaining_count {
        Some(count) => {
            if count < run.len() as u64 {
                let mut kept = run;
                kept.truncate(count as usize);
                (kept, Some(0))
            } else {
                let left: u64 = count - run.len() as u64;
                (run, Some(left))
            }
        },
        None => (run, None),
    }
}

/// Prepares what one cycle has to deliver of the batches that were fetched for
/// `current_version`.
pub fn prepare(
    batches: Vec<Vec<Transaction>>,
    current_version: u64,
    remaining_count: Option<u64>,
    chain_id: u64,
) -> (p: Prepared)
    ensures
        p@ == prepared(batch_seqs(batches@), current_version, remaining_count, chain_id),
{
    match sequence_batches(batches) {
        Err(e) => Prepared::Failed(FailureReason::Sequence(e)),
        Ok(merged) => {
            if let Some(0) = remaining_count {
                return Prepared::Done;
            }
            let fresh = trim_to_version(merged.transactions, current_version);
            if fresh.len() == 0 {
                Prepared::Nothing
            } else if fresh[0].version != current_version {
                Prepared::Failed(
                    FailureReason::StartsAhead {
                        expected: current_version,
                        found: fresh[0].version,
                    },
                )
            } else {
                let (kept, left) = truncate_to_count(fresh, remaining_count);
                match get_transactions_responses_builder(kept, chain_id) {
                    Err(e) => Prepared::Failed(FailureReason::Chunk(e)),
                    Ok(responses) => Prepared::Deliver { responses, remaining_count: left },
                }
            }
        },
    }
}

} // verus!
