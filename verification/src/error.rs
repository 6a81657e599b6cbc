//! Failures that the pool reports to its callers.

use vstd::prelude::*;

verus! {

/// Why the pool refused a request.
#[derive(Clone, Copy, Debug, PartialEq, Eq, Structural)]
pub enum PoolError {
    /// A pool was asked for with no worker at all.
    EmptyPoolConfig,
    /// A job was sent to a queue that no worker reads any more.
    ChannelClosed,
    /// A job was submitted after teardown had begun.
    PoolShuttingDown,
}

/// A job that was not accepted, handed back with the reason, so that the
/// submitter decides what becomes of it.
pub struct Rejected<J> {
    pub reason: PoolError,
    pub job: J,
}

} // verus!
