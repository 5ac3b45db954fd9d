//! The statuses that end a request or a subscription with an error.

use vstd::prelude::*;

verus! {

/// The code of a status.
#[derive(Clone, Copy, Debug, PartialEq, Eq)]
pub enum Code {
    Aborted,
    Unavailable,
}

/// An error that the subscriber is told.
#[derive(Clone, Copy, Debug, PartialEq, Eq)]
pub enum Status {
    /// The request names no starting version.
    StartingVersionNotSet,
    /// No connection to the cache could be made.
    CannotConnectToCache,
    /// The cache did not tell its chain id.
    CannotGetChainId,
    /// The cache and the file store are of different chains.
    ChainIdMismatch,
}

impl Status {
    /// The code of the status: a request that is refused is aborted, a subscription that
    /// cannot be served is told that the service is unavailable.
    pub open spec fn spec_code(self) -> Code {
        match self {
            Status::StartingVersionNotSet => Code::Aborted,
            _ => Code::Unavailable,
        }
    }

    /// The text of the status.
    pub open spec fn spec_message(self) -> Seq<char> {
        match self {
            Status::StartingVersionNotSet => "Starting version is not set"@,
            Status::CannotConnectToCache => "[Data Service] Cannot connect to Redis; please retry."@,
            Status::CannotGetChainId => "[Data Service] Cannot get the chain id from redis; please retry."@,
            Status::ChainIdMismatch => "[Data Service] Chain ID mismatch."@,
        }
    }

    /// The code of the status.
    pub fn code(&self) -> (code: Code)
        ensures
            code == self.spec_code(),
    {
        match self {
            Status::StartingVersionNotSet => Code::Aborted,
            _ => Code::Unavailable,
        }
    }

    /// The text of the status.
    pub fn message(&self) -> (message: &'static str)
        ensures
            message@ == self.spec_message(),
    {
        match self {
            Status::StartingVersionNotSet => "Starting version is not set",
            Status::CannotConnectToCache => "[Data Service] Cannot connect to Redis; please retry.",
            Status::CannotGetChainId => "[Data Service] Cannot get the chain id from redis; please retry.",
            Status::ChainIdMismatch => "[Data Service] Chain ID mismatch.",
        }
    }
}

} // verus!
