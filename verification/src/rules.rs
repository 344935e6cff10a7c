//! The rules file's vocabulary: how a change is published, whether it needs an
//! approval, and what a rule matches a repository on.

use vstd::prelude::*;

verus! {

/// How a change reaches its base.
#[derive(Debug, Clone, Copy, PartialEq, Eq, Structural)]
pub enum MergePolicy {
    /// Squash it onto the base locally and push the base.
    LocalDirect,
    /// Open a change request and leave it open for review.
    ChangeOpen,
    /// Open a change request and let the host merge it once its checks pass.
    ChangeAuto,
    /// Open a change request and merge it at once.
    ChangeDirect,
}

/// Whether a change needs an approval before it lands.
#[derive(Debug, Clone, Copy, PartialEq, Eq, Structural)]
pub enum Approvals {
    /// The host must evaluate an approval.
    Required,
    /// No approval is asked for. Spelled `none` in the rules file.
    NotRequired,
}

/// A whole publication policy: both fields a rule can decide.
#[derive(Debug, Clone, Copy, PartialEq, Eq, Structural)]
pub struct Policy {
    /// How a change is published.
    pub publication: MergePolicy,
    /// Whether it needs an approval.
    pub approvals: Approvals,
}

/// What a rule matches a repository on. Every field it sets must match; a field it
/// leaves unset matches anything.
#[derive(Debug, Clone, PartialEq, Eq)]
pub struct RuleMatch {
    /// A glob over the host of the repository's origin.
    pub host: Option<String>,
    /// A glob over the owner.
    pub owner: Option<String>,
    /// A glob over the repository's name.
    pub name: Option<String>,
    /// A glob over the path of the publication checkout, `~/` expanded.
    pub path: Option<String>,
}

/// One rule: what it matches, and whichever of the two policy fields it sets.
#[derive(Debug, Clone, PartialEq, Eq)]
pub struct Rule {
    /// What it matches (the file's `match:` key).
    pub criteria: RuleMatch,
    /// The publication it sets, if it sets one.
    pub publication: Option<MergePolicy>,
    /// The approvals it sets, if it sets them.
    pub approvals: Option<Approvals>,
}

/// The git trailer key provenance is written and read under.
#[derive(Debug, Clone, PartialEq, Eq)]
pub struct TrailerPrefix(pub String);

/// A rules file as it is stored on disk.
#[derive(Debug, Clone, PartialEq, Eq)]
pub struct RulesFile {
    /// The schema version it declares.
    pub version: u32,
    /// The trailer prefix it configures, from version 2.
    pub trailer_prefix: Option<TrailerPrefix>,
    /// The rules, first match wins.
    pub rules: Vec<Rule>,
    /// What a field no matching rule sets comes from.
    pub default: Policy,
}

/// What verifies a change before it may be published.
#[derive(Debug, Clone, PartialEq, Eq)]
pub enum Gate {
    /// A command this crate runs itself, as its argv.
    Command {
        /// The argv.
        command: Vec<String>,
    },
    /// A verifier of a named kind that runs elsewhere — the repository's own
    /// `pre-push` hook, or the host's required checks.
    Kind {
        /// The kind.
        kind: String,
    },
}

} // verus!
