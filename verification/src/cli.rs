//! The command line's arguments, as values: one type per subcommand.
//!
//! These are the plain shapes the library speaks of; the parser that fills them
//! from `argv` lives with the program.

use vstd::prelude::*;
use crate::ops::{BranchPublishRequest, ImportRequest, IntegrateRequest, RecoverRequest};
use crate::rules::MergePolicy;

verus! {

/// The whole command line: one subcommand.
#[derive(Debug, Clone, PartialEq, Eq)]
pub struct Cli {
    /// What to do.
    pub command: Command,
}

/// Every subcommand.
#[derive(Debug, Clone, PartialEq, Eq)]
pub enum Command {
    /// Register a checkout, resolving its origin to a repository identity.
    Register(RegisterArgs),
    /// List every registered repository identity and its checkouts.
    Repos(ReposArgs),
    /// Resolve a repository argument to the identity it selects.
    Resolve(ResolveArgs),
    /// Open, adopt, close or list sessions.
    Session {
        /// Which session verb.
        command: SessionCommand,
    },
    /// Verify and publish a session's work.
    Publish(PublishArgs),
    /// Verify and publish a completed branch no session holds.
    PublishBranch(PublishBranchArgs),
    /// Verify and publish a preserved branch a step left behind.
    Recover(RecoverArgs),
    /// List preserved branches whose work has not reached its base.
    Recoverable(RecoverableArgs),
    /// Report everything this host knows about one piece of work.
    Status(StatusArgs),
    /// Make one branch reachable from an identity's registered checkouts.
    Import(ImportArgs),
    /// Merge finished branches into their base, in order.
    Integrate(IntegrateArgs),
    /// Fast-forward a publication checkout to its origin.
    Sync(SyncArgs),
    /// Print a session's event stream.
    Events(EventsArgs),
    /// Read stored artifacts.
    Artifact {
        /// Which artifact verb.
        command: ArtifactCommand,
    },
    /// Explain the publication rules.
    Rules {
        /// Which rules verb.
        command: RulesCommand,
    },
}

/// Arguments of `register`.
#[derive(Debug, Clone, PartialEq, Eq)]
pub struct RegisterArgs {
    /// The checkout to register.
    pub path: String,
    /// The URL to resolve the identity from, where the checkout's own remote is not
    /// the one to use.
    pub origin: Option<String>,
}

/// Arguments of `repos`.
#[derive(Debug, Clone, PartialEq, Eq)]
pub struct ReposArgs {
    /// Also report what each identity's host requires and what covers each
    /// checkout's merge path.
    pub audit_gates: bool,
}

/// Arguments of `resolve`.
#[derive(Debug, Clone, PartialEq, Eq)]
pub struct ResolveArgs {
    /// An identity key, a registered alias, an origin URL, or a path.
    pub repo: String,
}

/// The session verbs.
#[derive(Debug, Clone, PartialEq, Eq)]
pub enum SessionCommand {
    /// Open a session.
    Open(SessionOpenArgs),
    /// Take over a session another process opened.
    Adopt(SessionTokenArgs),
    /// Close a session.
    Close(SessionTokenArgs),
    /// List what holds an identity's sessions.
    Holders(SessionHoldersArgs),
}

/// Arguments of `session open`.
#[derive(Debug, Clone, PartialEq, Eq)]
pub struct SessionOpenArgs {
    /// The repository to open it in.
    pub repo: String,
    /// The branch to pin it to.
    pub branch: Option<String>,
    /// The base to open it against.
    pub base: Option<String>,
    /// The execution checkout to clone from, by alias.
    pub execution_checkout: Option<String>,
}

/// Arguments naming one session.
#[derive(Debug, Clone, PartialEq, Eq)]
pub struct SessionTokenArgs {
    /// The session's token.
    pub token: String,
}

/// Arguments of `session holders`.
#[derive(Debug, Clone, PartialEq, Eq)]
pub struct SessionHoldersArgs {
    /// The repository whose sessions to list.
    pub repo: String,
    /// Print the answer as JSON.
    pub json: bool,
}

/// Arguments of `publish`.
#[derive(Debug, Clone, PartialEq, Eq)]
pub struct PublishArgs {
    /// The session to publish.
    pub token: String,
    /// A policy to narrow to.
    pub policy: Option<MergePolicy>,
    /// The subject to land it under.
    pub title: Option<String>,
    /// The body of the change request.
    pub body: Option<String>,
    /// A file to read the body from.
    pub body_file: Option<String>,
}

/// Arguments of `publish-branch`.
#[derive(Debug, Clone, PartialEq, Eq)]
pub struct PublishBranchArgs {
    /// The branch to publish.
    pub branch: String,
    /// The repository it belongs to.
    pub repo: String,
    /// The subject to land it under.
    pub title: Option<String>,
    /// A policy to narrow to.
    pub policy: Option<MergePolicy>,
}

/// Arguments of `recover`.
#[derive(Debug, Clone, PartialEq, Eq)]
pub struct RecoverArgs {
    /// The branch to recover.
    pub branch: String,
    /// The repository it belongs to.
    pub repo: String,
    /// The subject to land it under.
    pub title: Option<String>,
}

/// Arguments of `recoverable`.
#[derive(Debug, Clone, PartialEq, Eq)]
pub struct RecoverableArgs {
    /// Print the answer as JSON.
    pub json: bool,
}

/// Arguments of `status`.
#[derive(Debug, Clone, PartialEq, Eq)]
pub struct StatusArgs {
    /// A change request's URL, a session token, a branch name, or a commit.
    pub reference: String,
    /// Print the answer as JSON.
    pub json: bool,
}

/// Arguments of `import`.
#[derive(Debug, Clone, PartialEq, Eq)]
pub struct ImportArgs {
    /// The branch to import.
    pub branch: String,
    /// The repository to import into.
    pub repo: String,
    /// Where to take it from.
    pub from: Option<String>,
    /// The name to write it under (`--as`).
    pub under: Option<String>,
}

/// Arguments of `integrate`.
#[derive(Debug, Clone, PartialEq, Eq)]
pub struct IntegrateArgs {
    /// The branches to take, in order.
    pub branches: Vec<String>,
    /// Push the advanced base.
    pub push: bool,
}

/// Arguments of `sync`.
#[derive(Debug, Clone, PartialEq, Eq)]
pub struct SyncArgs {
    /// The branch to sync, or the origin's default.
    pub branch: Option<String>,
}

/// Arguments of `events`.
#[derive(Debug, Clone, PartialEq, Eq)]
pub struct EventsArgs {
    /// The session whose stream to print.
    pub token: String,
    /// Keep printing as events arrive.
    pub follow: bool,
    /// A file of event matchers to filter by.
    pub filter: Option<String>,
}

/// The artifact verbs.
#[derive(Debug, Clone, PartialEq, Eq)]
pub enum ArtifactCommand {
    /// Print one stored artifact.
    Cat(ArtifactCatArgs),
}

/// Arguments of `artifact cat`.
#[derive(Debug, Clone, PartialEq, Eq)]
pub struct ArtifactCatArgs {
    /// The artifact's id.
    pub id: String,
}

/// The rules verbs.
#[derive(Debug, Clone, PartialEq, Eq)]
pub enum RulesCommand {
    /// Explain how one repository resolves against the rules.
    Check(RulesCheckArgs),
}

/// Arguments of `rules check`.
#[derive(Debug, Clone, PartialEq, Eq)]
pub struct RulesCheckArgs {
    /// The repository to explain.
    pub repo: String,
}

impl ImportArgs {
    /// The import these arguments ask for.
    pub fn request(&self) -> (r: ImportRequest)
        ensures
            r.repo@ == self.repo@,
            r.branch@ == self.branch@,
            crate::text::opt_view(r.from) == crate::text::opt_view(self.from),
            crate::text::opt_view(r.under) == crate::text::opt_view(self.under),
    {
        ImportRequest {
            repo: self.repo.clone(),
            branch: self.branch.clone(),
            from: copy_opt(&self.from),
            under: copy_opt(&self.under),
        }
    }
}

impl IntegrateArgs {
    /// The train these arguments ask for.
    pub fn request(&self) -> (r: IntegrateRequest)
        ensures
            r.branches@ == self.branches@,
            r.push == self.push,
    {
        IntegrateRequest { branches: self.branches.clone(), push: self.push }
    }
}

impl PublishBranchArgs {
    /// The publication these arguments ask for: no body, since the command line
    /// gives this verb none.
    pub fn request(&self) -> (r: BranchPublishRequest)
        ensures
            r.repo@ == self.repo@,
            r.branch@ == self.branch@,
            crate::text::opt_view(r.title) == crate::text::opt_view(self.title),
            r.body is None,
            r.policy == self.policy,
    {
        BranchPublishRequest {
            repo: self.repo.clone(),
            branch: self.branch.clone(),
            title: copy_opt(&self.title),
            body: None,
            policy: self.policy,
        }
    }
}

impl RecoverArgs {
    /// The recovery these arguments ask for: no body, since the command line gives
    /// this verb none.
    pub fn request(&self) -> (r: RecoverRequest)
        ensures
            r.repo@ == self.repo@,
            r.branch@ == self.branch@,
            crate::text::opt_view(r.title) == crate::text::opt_view(self.title),
            r.body is None,
    {
        RecoverRequest {
            repo: self.repo.clone(),
            branch: self.branch.clone(),
            title: copy_opt(&self.title),
            body: None,
        }
    }
}

fn copy_opt(value: &Option<String>) -> (out: Option<String>)
    ensures
        crate::text::opt_view(out) == crate::text::opt_view(*value),
{
    match value {
        Some(v) => Some(v.clone()),
        None => None,
    }
}

} // verus!
