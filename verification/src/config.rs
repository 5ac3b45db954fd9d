//! The constants that tune the service.

use vstd::prelude::*;

verus! {

/// How long to wait, in milliseconds, before asking again for a version that the log
/// has not reached yet.
pub const AHEAD_OF_CACHE_RETRY_SLEEP_DURATION_MS: u64 = 50;

/// How long to wait, in milliseconds, after a fetch in which every read failed.
pub const TRANSIENT_DATA_ERROR_RETRY_SLEEP_DURATION_MS: u64 = 1000;

/// How long to wait, in milliseconds, between two looks for the metadata of the file
/// store.
pub const FILE_STORE_METADATA_WAIT_MS: u64 = 2000;

/// How long a response may wait, in seconds, for room in the channel to the subscriber.
pub const RESPONSE_CHANNEL_SEND_TIMEOUT_SECS: u64 = 120;

/// A connection that ends before this many seconds is a short one.
pub const SHORT_CONNECTION_DURATION_IN_SECS: u64 = 10;

/// The window of the moving average of transactions per second.
pub const MOVING_AVERAGE_WINDOW_SIZE: u64 = 10_000;

/// How often the read of one block from the file store is tried.
pub const NUM_DATA_FETCH_RETRIES: u8 = 5;

/// The least number of blocks that one fetch from the file store asks for.
pub const MAX_FETCH_TASKS_PER_REQUEST: u64 = 10;

/// The number of transactions in one block of the file store.
pub const TRANSACTIONS_PER_STORAGE_BLOCK: u64 = 1000;

} // verus!
