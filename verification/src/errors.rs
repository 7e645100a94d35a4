//! Closed error taxonomy of the core.
//!
//! Each component surfaces a small tagged error type instead of a dynamic
//! catch-all: fetch failures are recoverable per candidate, persistence
//! failures are recoverable per write, and a malformed cron expression is a
//! startup-time configuration error.

use vstd::prelude::*;

verus! {

/// Failure of an external source fetch (network, timeout, or a response that
/// could not be decoded). Recoverable: the candidate stays a candidate and is
/// retried on the next scheduled run.
#[derive(Clone, Copy, PartialEq, Eq, Structural, Debug)]
pub enum FetchError {
    Network,
    Timeout,
    Decode,
}

/// Failure of a read or write against the relational store. Recoverable per
/// candidate: it is logged and does not abort the pipeline.
#[derive(Clone, Copy, PartialEq, Eq, Structural, Debug)]
pub enum PersistError {
    Connection,
    Write,
    Read,
}

/// A malformed cron expression handed to the scheduler at registration.
/// Fatal at startup: it indicates a programming error, not a runtime
/// condition.
#[derive(Clone, Copy, PartialEq, Eq, Structural, Debug)]
pub enum SchedulerConfigError {
    MalformedCron,
}

impl FetchError {
    /// A short human-readable tag for logging at the boundary.
    pub fn describe(&self) -> (r: &'static str)
        ensures
            self is Network ==> r@ == "fetch: network error"@,
            self is Timeout ==> r@ == "fetch: timeout"@,
            self is Decode ==> r@ == "fetch: undecodable response"@,
    {
        match self {
            FetchError::Network => "fetch: network error",
            FetchError::Timeout => "fetch: timeout",
            FetchError::Decode => "fetch: undecodable response",
        }
    }
}

impl PersistError {
    /// A short human-readable tag for logging at the boundary.
    pub fn describe(&self) -> (r: &'static str)
        ensures
            self is Connection ==> r@ == "persist: connection error"@,
            self is Write ==> r@ == "persist: write failed"@,
            self is Read ==> r@ == "persist: read failed"@,
    {
        match self {
            PersistError::Connection => "persist: connection error",
            PersistError::Write => "persist: write failed",
            PersistError::Read => "persist: read failed",
        }
    }
}

} // verus!
