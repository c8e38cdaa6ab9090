//! The failure kinds one invocation can surface. Every component reports
//! its failures to the orchestrator as one of these; the orchestrator never
//! retries within an invocation — the next scheduled invocation re-evaluates.

use vstd::prelude::*;

verus! {

#[derive(Clone, Copy, PartialEq, Eq, Structural, Debug)]
pub enum ErrorKind {
    /// The cache file was present but could not be parsed; corruption or
    /// version skew must not be silently discarded.
    CacheCorrupt,
    /// Persisting the cache after a mutation failed.
    CacheWriteFailed,
    /// Neither the cached credential nor a refresh produced a usable token.
    CredentialUnobtainable,
    /// A remote metadata payload was missing a field or had a wrong type.
    RemoteMetadataMalformed,
    /// The on-chain resource could not be fetched.
    LedgerQueryFailed,
    /// The on-chain song queue was empty while a round was active.
    LedgerQueueEmpty,
    /// Submitting the resolution action failed; the next invocation retries
    /// naturally, since the deadline condition still holds.
    LedgerMutationFailed,
}

impl ErrorKind {
    /// Short name for the log stream.
    pub fn describe(&self) -> &'static str {
        match self {
            ErrorKind::CacheCorrupt => "cache file present but unreadable",
            ErrorKind::CacheWriteFailed => "failed to persist the cache",
            ErrorKind::CredentialUnobtainable => "could not obtain a metadata API credential",
            ErrorKind::RemoteMetadataMalformed => "malformed remote metadata payload",
            ErrorKind::LedgerQueryFailed => "failed to query the ledger",
            ErrorKind::LedgerQueueEmpty => "on-chain song queue is empty",
            ErrorKind::LedgerMutationFailed => "failed to submit the resolution action",
        }
    }
}

} // verus!
