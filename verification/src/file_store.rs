//! The cold tier: a file store that holds the log in blocks of a fixed size, each
//! starting at a multiple of that size. A block is written once and never changed; only
//! the newest block may hold fewer transactions than the others.

use vstd::prelude::*;
use crate::config::TRANSACTIONS_PER_STORAGE_BLOCK;
use crate::planner::BlockRead;
use crate::transaction::{is_dense, is_dense_batch, Transaction};

verus! {

/// What is wrong with what the store gave for a block.
#[derive(Clone, Copy, Debug, PartialEq, Eq)]
pub enum BlockError {
    /// The version asked for is not the start of a block.
    NotAligned,
    /// The store gave nothing for a block that it must hold.
    Missing,
    /// The transactions do not start at the start of the block.
    StartsElsewhere,
    /// The transactions skip or repeat a version.
    NotDense,
    /// There are more transactions than a block holds.
    TooLong,
    /// The block is not full, though a newer one exists.
    Partial,
}

/// What is wrong with the transactions that the store gave for the block that starts at
/// `block_start`, when its newest block starts at `latest_block`; `None` where nothing
/// is. Nothing at all is right for a block behind the newest: the log is not there yet.
pub open spec fn block_fault(
    block_start: u64,
    latest_block: u64,
    transactions: Seq<Transaction>,
) -> Option<BlockError> {
    if block_start % TRANSACTIONS_PER_STORAGE_BLOCK != 0 {
        Some(BlockError::NotAligned)
    } else if transactions.len() == 0 {
        if block_start <= latest_block {
            Some(BlockError::Missing)
        } else {
            None
        }
    } else if transactions[0].version != block_start {
        Some(BlockError::StartsElsewhere)
    } else if !is_dense(transactions) {
        Some(BlockError::NotDense)
    } else if transactions.len() > TRANSACTIONS_PER_STORAGE_BLOCK {
        Some(BlockError::TooLong)
    } else if transactions.len() < TRANSACTIONS_PER_STORAGE_BLOCK && block_start < latest_block {
        Some(BlockError::Partial)
    } else {
        None
    }
}

/// Holds what the store gave for a block against what a block must be.
pub fn check_block(block_start: u64, latest_block: u64, transactions: &Vec<Transaction>) -> (r:
    Result<(), BlockError>)
    ensures
        match r {
            Ok(_) => block_fault(block_start, latest_block, transactions@) is None,
            Err(e) => block_fault(block_start, latest_block, transactions@) == Some(e),
        },
{
    if block_start % TRANSACTIONS_PER_STORAGE_BLOCK != 0 {
        Err(BlockError::NotAligned)
    } else if transactions.len() == 0 {
        if block_start <= latest_block {
            Err(BlockError::Missing)
        } else {
            Ok(())
        }
    } else if transactions[0].version != block_start {
        Err(BlockError::StartsElsewhere)
    } else if !is_dense_batch(transactions) {
        Err(BlockError::NotDense)
    } else if transactions.len() as u64 > TRANSACTIONS_PER_STORAGE_BLOCK {
        Err(BlockError::TooLong)
    } else if (transactions.len() as u64) < TRANSACTIONS_PER_STORAGE_BLOCK && block_start
        < latest_block {
        Err(BlockError::Partial)
    } else {
        Ok(())
    }
}

/// What the read of a block amounts to: the transactions where the store gave what a
/// block must be, and a failed read where it gave something else or, after every try,
/// nothing.
pub open spec fn block_read_of(
    block_start: u64,
    latest_block: u64,
    read: Option<Vec<Transaction>>,
) -> BlockRead {
    match read {
        Some(transactions) => if block_fault(block_start, latest_block, transactions@) is None {
            BlockRead::Transactions(transactions)
        } else {
            BlockRead::ReadFailed
        },
        None => BlockRead::ReadFailed,
    }
}

/// Makes of what the store gave for a block what the planner collects; `read` is `None`
/// where every try of the read failed.
pub fn block_read(block_start: u64, latest_block: u64, read: Option<Vec<Transaction>>) -> (r:
    BlockRead)
    ensures
        r == block_read_of(block_start, latest_block, read),
{
    match read {
        Some(transactions) => {
            match check_block(block_start, latest_block, &transactions) {
                Ok(_) => BlockRead::Transactions(transactions),
                Err(_) => BlockRead::ReadFailed,
            }
        },
        None => BlockRead::ReadFailed,
    }
}

} // verus!
