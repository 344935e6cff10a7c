//! What an origin URL normalizes to: the hosted coordinates a rule matches on.

use vstd::prelude::*;

verus! {

/// Where a hosted repository lives: its host, owner and name.
#[derive(Debug, Clone, PartialEq, Eq)]
pub struct Hosted {
    /// The host, e.g. `github.com`.
    pub host: String,
    /// The owner.
    pub owner: String,
    /// The repository's name.
    pub name: String,
}

/// An origin, normalized: hosted coordinates where it names a hosted repository,
/// none for a local one.
#[derive(Debug, Clone, PartialEq, Eq)]
pub struct Normalized {
    /// The hosted coordinates, where there are any.
    pub hosted: Option<Hosted>,
}

} // verus!
