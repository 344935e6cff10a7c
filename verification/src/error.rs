//! The one error type every fallible entry point in this crate returns.
//!
//! The variants are the failures `onevcs publish` has a distinct exit code for,
//! plus the refusal an interface-only build owes a caller.

use vstd::prelude::*;

use crate::text;

verus! {

/// Everything an `onevcs` operation can fail with.
#[derive(Debug)]
#[non_exhaustive]
pub enum Error {
    /// The request parsed and validated, but the seam behind it has no
    /// implementation yet. The command line reports this as exit code 70.
    NotImplemented {
        /// The operation that was asked for, e.g. `Vcs::open_session`.
        operation: String,
    },
    /// A publication was refused by something that judged it, where no narrower
    /// kind says which. The command line reports this as exit code 1.
    GateFailed {
        /// What failed, and what turned it down.
        reason: String,
    },
    /// Input was rejected at a trust boundary. Exit code 2.
    Invalid {
        /// What was rejected and why.
        reason: String,
    },
    /// The base moved under a publication and the bounded resolve-and-requeue did
    /// not converge. Exit code 3.
    SyncConflict {
        /// The conflict that survived the bounded retry.
        reason: String,
    },
    /// A required check the host reports concluded red. Exit code 1.
    ChecksFailed {
        /// The check that concluded red, and a bounded excerpt of its log.
        reason: String,
    },
    /// The bound on watching the host elapsed with the change still outstanding.
    /// Exit code 1.
    ChecksUnsettled {
        /// What was still outstanding when the bound elapsed.
        reason: String,
    },
    /// The publishing push was refused by the merge path. Exit code 1.
    PushRejected {
        /// git's own per-ref refusal.
        reason: String,
    },
    /// The publishing push reached the remote, and the merge path could not then be
    /// read. Exit code 1.
    PushedUnverified {
        /// Where the push landed, and what stopped the merge path being read.
        reason: String,
    },
    /// No session of an identity can be placed now: its pool and its overflow are
    /// both spent. Exit code 4.
    PoolExhausted {
        /// The limits, where each came from, and every holder.
        reason: String,
    },
}

/// The result type every fallible entry point in this crate returns.
pub type Result<T> = core::result::Result<T, Error>;

/// Reject something, naming what was wrong with it.
pub fn invalid(reason: String) -> (e: Error)
    ensures
        e == (Error::Invalid { reason }),
{
    Error::Invalid { reason }
}

/// How each kind opens the sentence that reports it.
pub open spec fn spec_heading(e: Error) -> Seq<char> {
    match e {
        Error::NotImplemented { .. } => seq![],
        Error::GateFailed { .. } => "gate failed: "@,
        Error::Invalid { .. } => "invalid input: "@,
        Error::SyncConflict { .. } => "sync conflict: "@,
        Error::ChecksFailed { .. } => "required check failed: "@,
        Error::ChecksUnsettled { .. } => "checks unsettled: "@,
        Error::PushRejected { .. } => "push rejected: "@,
        Error::PushedUnverified { .. } => "pushed, merge path unverified: "@,
        Error::PoolExhausted { .. } => "pool exhausted: "@,
    }
}

/// The sentence an error is reported as.
pub open spec fn spec_message(e: Error) -> Seq<char> {
    match e {
        Error::NotImplemented { operation } => operation@ + NOT_IMPLEMENTED@,
        Error::GateFailed { reason } => spec_heading(e) + reason@,
        Error::Invalid { reason } => spec_heading(e) + reason@,
        Error::SyncConflict { reason } => spec_heading(e) + reason@,
        Error::ChecksFailed { reason } => spec_heading(e) + reason@,
        Error::ChecksUnsettled { reason } => spec_heading(e) + reason@,
        Error::PushRejected { reason } => spec_heading(e) + reason@,
        Error::PushedUnverified { reason } => spec_heading(e) + reason@,
        Error::PoolExhausted { reason } => spec_heading(e) + reason@,
    }
}

/// What an interface-only operation says after its own name.
pub const NOT_IMPLEMENTED: &'static str =
    " is not implemented yet: this build of onevcs is interface-only";

/// The exit code each kind of failure is reported with.
pub open spec fn spec_exit_code(e: Error) -> u8 {
    match e {
        Error::NotImplemented { .. } => 70u8,
        Error::Invalid { .. } => 2u8,
        Error::SyncConflict { .. } => 3u8,
        Error::PoolExhausted { .. } => POOL_EXHAUSTED_EXIT,
        _ => 1u8,
    }
}

/// The exit code a pool that admits nothing right now is answered with: its own,
/// so a caller can tell "come back later" from "this request was wrong" by the
/// status alone.
pub const POOL_EXHAUSTED_EXIT: u8 = 4;

/// No failure is reported as success: every kind of error exits non-zero.
pub proof fn lemma_failures_exit_nonzero(e: Error)
    ensures
        spec_exit_code(e) != 0,
{
}

impl Error {
    /// The sentence this error is reported as, which is what the command line
    /// prints.
    pub fn message(&self) -> (out: String)
        ensures
            out@ == spec_message(*self),
    {
        match self {
            Error::NotImplemented { operation } => text::concat(operation, NOT_IMPLEMENTED),
            Error::GateFailed { reason } => text::concat("gate failed: ", reason),
            Error::Invalid { reason } => text::concat("invalid input: ", reason),
            Error::SyncConflict { reason } => text::concat("sync conflict: ", reason),
            Error::ChecksFailed { reason } => text::concat("required check failed: ", reason),
            Error::ChecksUnsettled { reason } => text::concat("checks unsettled: ", reason),
            Error::PushRejected { reason } => text::concat("push rejected: ", reason),
            Error::PushedUnverified { reason } => text::concat(
                "pushed, merge path unverified: ",
                reason,
            ),
            Error::PoolExhausted { reason } => text::concat("pool exhausted: ", reason),
        }
    }

    /// The exit code the command line reports this error with.
    pub fn exit_code(&self) -> (code: u8)
        ensures
            code == spec_exit_code(*self),
    {
        match self {
            Error::NotImplemented { .. } => 70,
            Error::Invalid { .. } => 2,
            Error::SyncConflict { .. } => 3,
            Error::PoolExhausted { .. } => POOL_EXHAUSTED_EXIT,
            _ => 1,
        }
    }
}

} // verus!
