//! The step events of the service: what is told of a fetch and of a send, with the
//! numbers worked out. How long a step took is for the one who timed it to add.

use vstd::prelude::*;
use crate::response::TransactionsResponse;
use crate::transaction::{Timestamp, Transaction};
use crate::wire::{response_len, total_encoded_len, total_len};

verus! {

/// The name under which the service tells of its steps.
pub const SERVICE_TYPE: &'static str = "data_service";

/// The steps that the service tells of.
#[derive(Clone, Copy, Debug, PartialEq, Eq)]
pub enum IndexerGrpcStep {
    DataServiceNewRequestReceived,
    DataServiceDataFetchedCache,
    DataServiceDataFetchedFilestore,
    DataServiceTxnsDecoded,
    DataServiceChunkSent,
    DataServiceAllChunksSent,
}

/// What is told of one step.
#[derive(Clone, Copy, Debug, PartialEq, Eq)]
pub struct StepEvent {
    pub step: IndexerGrpcStep,
    pub start_version: Option<u64>,
    pub end_version: Option<u64>,
    pub start_version_timestamp: Option<Timestamp>,
    pub end_version_timestamp: Option<Timestamp>,
    /// `None` where the size is not known or is beyond `usize`.
    pub size_in_bytes: Option<usize>,
    pub num_transactions: Option<u64>,
}

/// The number as a `u64` where it is one, `None` else.
pub open spec fn as_version(n: int) -> Option<u64> {
    if 0 <= n <= u64::MAX {
        Some(n as u64)
    } else {
        None
    }
}

/// The number as a `usize` where it is one, `None` else.
pub open spec fn as_size(n: int) -> Option<usize> {
    if 0 <= n <= usize::MAX {
        Some(n as usize)
    } else {
        None
    }
}

/// The event that tells of a request for the versions from `starting_version` on.
pub open spec fn request_received_event(starting_version: u64) -> StepEvent {
    StepEvent {
        step: IndexerGrpcStep::DataServiceNewRequestReceived,
        start_version: Some(starting_version),
        end_version: None,
        start_version_timestamp: None,
        end_version_timestamp: None,
        size_in_bytes: None,
        num_transactions: None,
    }
}

/// The event that tells of transactions fetched for `start_version`: they count from
/// `start_version` on, and their size is that of their encodings added up.
pub open spec fn fetched_event(
    step: IndexerGrpcStep,
    start_version: u64,
    transactions: Seq<Transaction>,
) -> Option<StepEvent> {
    if transactions.len() == 0 {
        None
    } else {
        Some(
            StepEvent {
                step,
                start_version: Some(start_version),
                end_version: as_version(start_version + transactions.len() - 1),
                start_version_timestamp: transactions.first().timestamp,
                end_version_timestamp: transactions.last().timestamp,
                size_in_bytes: as_size(total_len(transactions) as int),
                num_transactions: as_version(transactions.len() as int),
            },
        )
    }
}

/// The event that tells of a response that was sent.
pub open spec fn chunk_sent_event(response: TransactionsResponse) -> Option<StepEvent> {
    let transactions = response.transactions@;
    if transactions.len() == 0 {
        None
    } else {
        Some(
            StepEvent {
                step: IndexerGrpcStep::DataServiceChunkSent,
                start_version: Some(transactions.first().version),
                end_version: Some(transactions.last().version),
                start_version_timestamp: transactions.first().timestamp,
                end_version_timestamp: transactions.last().timestamp,
                size_in_bytes: as_size(response_len(response.chain_id, transactions) as int),
                num_transactions: as_version(transactions.len() as int),
            },
        )
    }
}

/// The sizes of the events added up, `None` where one of them is not known.
pub open spec fn sizes_added(events: Seq<StepEvent>) -> Option<int>
    decreases events.len(),
{
    if events.len() == 0 {
        Some(0)
    } else {
        match (sizes_added(events.drop_last()), events.last().size_in_bytes) {
            (Some(sum), Some(size)) => Some(sum + size),
            _ => None,
        }
    }
}

/// The event that tells of all the responses of a cycle, made of the events of the
/// responses: it reaches from the start of the first to the end of the last, and counts
/// the versions between them.
pub open spec fn all_chunks_sent_event(chunks: Seq<StepEvent>) -> Option<StepEvent> {
    if chunks.len() == 0 {
        None
    } else {
        Some(
            StepEvent {
                step: IndexerGrpcStep::DataServiceAllChunksSent,
                start_version: chunks.first().start_version,
                end_version: chunks.last().end_version,
                start_version_timestamp: chunks.first().start_version_timestamp,
                end_version_timestamp: chunks.last().end_version_timestamp,
                size_in_bytes: match sizes_added(chunks) {
                    Some(sum) => as_size(sum),
                    None => None,
                },
                num_transactions: match (chunks.first().start_version, chunks.last().end_version) {
                    (Some(start), Some(end)) => if start <= end {
                        as_version(end - start + 1)
                    } else {
                        None
                    },
                    _ => None,
                },
            },
        )
    }
}

/// Tells of a request for the versions from `starting_version` on.
pub fn request_received(starting_version: u64) -> (event: StepEvent)
    ensures
        event == request_received_event(starting_version),
{
    StepEvent {
        step: IndexerGrpcStep::DataServiceNewRequestReceived,
        start_version: Some(starting_version),
        end_version: None,
        start_version_timestamp: None,
        end_version_timestamp: None,
        size_in_bytes: None,
        num_transactions: None,
    }
}

/// Tells of transactions that were fetched for `start_version`; of none there is nothing
/// to tell.
pub fn data_fetched(step: IndexerGrpcStep, start_version: u64, transactions: &Vec<Transaction>)
    -> (event: Option<StepEvent>)
    ensures
        event == fetched_event(step, start_version, transactions@),
{
    let count: usize = transactions.len();
    if count == 0 {
        None
    } else {
        let end_version: Option<u64> = if (count - 1) as u128 <= (u64::MAX - start_version)
            as u128 {
            Some(start_version + (count - 1) as u64)
        } else {
            None
        };
        Some(
            StepEvent {
                step,
                start_version: Some(start_version),
                end_version,
                start_version_timestamp: transactions[0].timestamp,
                end_version_timestamp: transactions[count - 1].timestamp,
                size_in_bytes: total_encoded_len(transactions),
                num_transactions: Some(count as u64),
            },
        )
    }
}

/// Tells of a response that was sent; of one without transactions there is nothing to
/// tell.
pub fn chunk_sent(response: &TransactionsResponse) -> (event: Option<StepEvent>)
    ensures
        event == chunk_sent_event(*response),
{
    let count: usize = response.transactions.len();
    if count == 0 {
        None
    } else {
        Some(
            StepEvent {
                step: IndexerGrpcStep::DataServiceChunkSent,
                start_version: Some(response.transactions[0].version),
                end_version: Some(response.transactions[count - 1].version),
                start_version_timestamp: response.transactions[0].timestamp,
                end_version_timestamp: response.transactions[count - 1].timestamp,
                size_in_bytes: response.encoded_len(),
                num_transactions: Some(count as u64),
            },
        )
    }
}

/// Tells of all the responses of a cycle, given what was told of each; of none there is
/// nothing to tell.
pub fn all_chunks_sent(chunks: &Vec<StepEvent>) -> (event: Option<StepEvent>)
    ensures
        event == all_chunks_sent_event(chunks@),
{
    let count: usize = chunks.len();
    if count == 0 {
        return None;
    }
    let mut size: Option<usize> = Some(0);
    let mut known: bool = true;
    let mut i: usize = 0;
    proof {
        assert(chunks@.take(0) =~= Seq::<StepEvent>::empty());
    }
    while i < count
        invariant
            i <= count,
            count == chunks.len(),
            known == sizes_added(chunks@.take(i as int)) is Some,
            known ==> size == as_size(sizes_added(chunks@.take(i as int))->Some_0),
            known ==> sizes_added(chunks@.take(i as int))->Some_0 >= 0,
            !known ==> size is None,
        decreases count - i,
    {
        proof {
            assert(chunks@.take(i + 1).drop_last() =~= chunks@.take(i as int));
            assert(chunks@.take(i + 1).last() == chunks@[i as int]);
        }
        match (size, chunks[i].size_in_bytes) {
            (Some(sum), Some(more)) => {
                size = sum.checked_add(more);
            },
            (None, Some(_)) => {},
            _ => {
                known = false;
                size = None;
            },
        }
        i += 1;
    }
    proof {
        assert(chunks@.take(count as int) =~= chunks@);
    }
    let num_transactions: Option<u64> = match (
        chunks[0].start_version,
        chunks[count - 1].end_version,
    ) {
        (Some(start), Some(end)) => {
            if end >= start && end - start < u64::MAX {
                Some(end - start + 1)
            } else {
                None
            }
        },
        _ => None,
    };
    Some(
        StepEvent {
            step: IndexerGrpcStep::DataServiceAllChunksSent,
            start_version: chunks[0].start_version,
            end_version: chunks[count - 1].end_version,
            start_version_timestamp: chunks[0].start_version_timestamp,
            end_version_timestamp: chunks[count - 1].end_version_timestamp,
            size_in_bytes: size,
            num_transactions,
        },
    )
}

} // verus!
