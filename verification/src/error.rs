//! What can go wrong when the pool is built and when a host is selected, and
//! the words in which each failure is reported.

use crate::text::{decimal, to_decimal};
use vstd::prelude::*;

verus! {

/// Why no pool could be built.
#[derive(Clone, Copy, Debug, PartialEq, Eq, Structural)]
pub enum PoolError {
    /// No host was left to serve from.
    Empty,
}

/// Why a host did not pass its health probe.
#[derive(Clone, Copy, Debug, PartialEq, Eq, Structural)]
pub enum ProbeFailure {
    /// The request to the host did not complete.
    RequestFailed,
    /// The host answered, but not with a status that means success.
    Unhealthy,
}

/// Why a selection handed out no host.
#[derive(Clone, Copy, Debug, PartialEq, Eq, Structural)]
pub enum SelectError {
    /// The update of the shared cursor did not go through.
    CursorUpdateFailed,
    /// The cursor held `index`, which is no position in the pool.
    IndexOutOfRange { index: usize },
}

impl PoolError {
    /// The words that report this failure.
    pub open spec fn text(self) -> Seq<char> {
        "none of the provided valid hosts is reachable and/or the health check request failed"@
    }

    /// Writes out the report of this failure.
    pub fn message(&self) -> (message: String)
        ensures
            message@ == self.text(),
    {
        String::from_str(
            "none of the provided valid hosts is reachable and/or the health check request failed",
        )
    }
}

impl ProbeFailure {
    /// The words that report this failure of the probe of `host`.
    pub open spec fn text(self, host: Seq<char>) -> Seq<char> {
        match self {
            ProbeFailure::RequestFailed => "the request to "@ + host + "/health failed"@,
            ProbeFailure::Unhealthy => "health check failed for "@ + host,
        }
    }

    /// Writes out the report of this failure of the probe of `host`.
    pub fn message(&self, host: &str) -> (message: String)
        ensures
            message@ == self.text(host@),
    {
        match self {
            ProbeFailure::RequestFailed => {
                let mut message = String::from_str("the request to ");
                message.append(host);
                message.append("/health failed");
                message
            },
            ProbeFailure::Unhealthy => {
                let mut message = String::from_str("health check failed for ");
                message.append(host);
                message
            },
        }
    }
}

impl SelectError {
    /// The words that report this failure; an out-of-range position is named
    /// in decimal.
    pub open spec fn text(self) -> Seq<char> {
        match self {
            SelectError::CursorUpdateFailed =>
                "fetching and updating the host_idx failed, falling back to index 0"@,
            SelectError::IndexOutOfRange { index } => "the host with index="@ + decimal(
                index as nat,
            ) + " is not available"@,
        }
    }

    /// Writes out the report of this failure.
    pub fn message(&self) -> (message: String)
        ensures
            message@ == self.text(),
    {
        match self {
            SelectError::CursorUpdateFailed => String::from_str(
                "fetching and updating the host_idx failed, falling back to index 0",
            ),
            SelectError::IndexOutOfRange { index } => {
                let mut message = String::from_str("the host with index=");
                let numeral = to_decimal(*index);
                message.append(numeral.as_str());
                message.append(" is not available");
                message
            },
        }
    }
}

} // verus!
