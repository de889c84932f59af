//! How a handler task fails, whichever engine runs it.

use vstd::prelude::*;

verus! {

/// How a task failed.
pub enum TaskError {
    /// A failure of the engine itself.
    Internal(String),
    /// The handler failed; the message says how.
    HandlerError(String),
    /// The handler threw, and the exception carried a stack.
    HandlerErrorWithStack { message: String, stack: String },
    /// The task ran out of time (its budget in milliseconds).
    Timeout(u64),
    /// A transaction commit failed inside the handler; its outcome is
    /// unknown.
    TransactionCommitFailed { datasource: String, message: String },
    /// The worker running the task crashed.
    WorkerCrash(String),
}

} // verus!
