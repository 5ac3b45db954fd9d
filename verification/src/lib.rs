//! A transaction streaming service: an ordered log of transactions without gaps, served
//! to subscribers from a cache that holds its newest part and a file store that holds
//! all of it in blocks.
//!
//! The library holds the rules of the service and proves them; it reads no socket and
//! no clock. [`worker`] is the state of one subscription, driven by events from the
//! outside; [`planner`] decides where to read from, [`sequencer`] merges what was read,
//! [`delivery`] and [`response`] cut it into messages, and [`server`] accepts requests.
//! [`sequencer_proofs`] and [`worker_proofs`] state what holds of every merge and of
//! every subscription. [`session`], [`user_transaction_sessions`] and
//! [`sharded_block_executor`] serve the execution of transactions rather than their
//! delivery.

pub mod config;
pub mod transaction;
pub mod wire;
pub mod sequencer;
pub mod sequencer_proofs;
pub mod response;
pub mod cache;
pub mod file_store;
pub mod planner;
pub mod delivery;
pub mod status;
pub mod worker;
pub mod worker_proofs;
pub mod server;
pub mod observability;
pub mod session;
pub mod user_transaction_sessions;
pub mod sharded_block_executor;
