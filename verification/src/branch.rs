//! Publishing a branch that is named rather than held by a session.
//!
//! `recover` and `publish-branch` are two verbs over one path: find the branch
//! wherever the identity left it, settle the base it is published onto, and land
//! it. Every refusal here names the command that resolves it: a branch reached by
//! name is reached by an operator who has already been refused somewhere else.

use vstd::prelude::*;

use crate::error::{Error, Result};
use crate::event::{fields_view, Emitted, EventKind};
use crate::git::{self, CommitMessage, Output};
use crate::guidance;
use crate::rules::MergePolicy;
use crate::text::{self, spec_join, views};

verus! {

/// Which verb is landing the branch.
#[derive(Debug, Clone, Copy, PartialEq, Eq, Structural)]
pub enum Verb {
    /// `onevcs recover`: interrupted work, published with an attestation.
    Recover,
    /// `onevcs publish-branch`: work that is already complete.
    PublishBranch,
}

/// The command's own name.
pub open spec fn spec_verb_name(verb: Verb) -> Seq<char> {
    match verb {
        Verb::Recover => "recover"@,
        Verb::PublishBranch => "publish-branch"@,
    }
}

/// Where under the state root a verb's disposable clones live.
pub open spec fn spec_verb_runs(verb: Verb) -> Seq<char> {
    match verb {
        Verb::Recover => "recoveries"@,
        Verb::PublishBranch => "publications"@,
    }
}

/// The exact invocation that runs a verb over one branch again, quoted so that
/// running it as printed runs it over the same two arguments.
pub open spec fn spec_verb_command(verb: Verb, branch: Seq<char>, repo: Seq<char>) -> Seq<char> {
    guidance::spec_command(seq!["onevcs"@, spec_verb_name(verb), branch, "--repo"@, repo])
}

impl Verb {
    /// The command's own name.
    pub fn name(self) -> (out: &'static str)
        ensures
            out@ == spec_verb_name(self),
    {
        match self {
            Verb::Recover => "recover",
            Verb::PublishBranch => "publish-branch",
        }
    }

    /// The exact invocation that runs this verb over one branch again.
    pub fn command(self, branch: &str, repo: &str) -> (out: String)
        ensures
            out@ == spec_verb_command(self, branch@, repo@),
    {
        let argv = vec![
            text::owned("onevcs"),
            text::owned(self.name()),
            text::owned(branch),
            text::owned("--repo"),
            text::owned(repo),
        ];
        proof {
            assert(views(argv@) =~= seq!["onevcs"@, spec_verb_name(self), branch@, "--repo"@, repo@]);
        }
        guidance::command_of(&argv)
    }

    /// Where under the state root this verb's disposable clones live.
    pub fn runs(self) -> (out: &'static str)
        ensures
            out@ == spec_verb_runs(self),
    {
        match self {
            Verb::Recover => "recoveries",
            Verb::PublishBranch => "publications",
        }
    }

    /// Every verb that cuts a run root under the state root, so the verbs that make
    /// those directories and the sweep that reaps them cannot disagree.
    pub fn all() -> (verbs: [Verb; 2])
        ensures
            verbs@ == seq![Verb::Recover, Verb::PublishBranch],
    {
        let verbs = [Verb::Recover, Verb::PublishBranch];
        assert(verbs@ =~= seq![Verb::Recover, Verb::PublishBranch]);
        verbs
    }
}

/// The two verbs that cut run roots put them in two different places.
pub proof fn lemma_verbs_run_apart()
    ensures
        spec_verb_runs(Verb::Recover) != spec_verb_runs(Verb::PublishBranch),
        spec_verb_name(Verb::Recover) != spec_verb_name(Verb::PublishBranch),
{
    reveal_strlit("recoveries");
    reveal_strlit("publications");
    reveal_strlit("recover");
    reveal_strlit("publish-branch");
    assert("recoveries"@.len() != "publications"@.len());
    assert("recover"@.len() != "publish-branch"@.len());
}

/// One located branch, cut into a clone of its own and ready to be published.
#[derive(Debug, Clone)]
pub struct Landing {
    /// Which verb prepared it, so a refusal after this point names that command.
    pub verb: Verb,
    /// The repository as the operator named it, which is what `--repo` gets back.
    pub repo_argument: String,
    /// The rules file an operator would edit to change the policy.
    pub rules_file: String,
    /// The policy this run publishes under, once `--policy` has narrowed it.
    pub effective: MergePolicy,
    /// The checkout the branch was read out of, which keeps it.
    pub source: String,
    /// The disposable clone the branch was imported into.
    pub clone: String,
    /// The worktree a publication is verified in.
    pub worktree: String,
    /// Where preserved gate logs are written.
    pub run_root: String,
    /// The branch itself.
    pub branch: String,
    /// What the branch is published onto and compared against.
    pub change_base: String,
    /// The change base as it is actually compared: origin's copy where there is one.
    pub compared_change_base: String,
    /// What this run has seen the host's copy of this branch at.
    pub observed: Option<String>,
    /// The recorded stack tip this branch's own commits are replayed from, when the
    /// change below it has already landed on the root base.
    pub stack_replay: Option<String>,
}

/// The invocation that reports which policy a repository resolves to.
pub open spec fn spec_rules_check(repo: Seq<char>) -> Seq<char> {
    guidance::spec_command(seq!["onevcs"@, "rules"@, "check"@, repo])
}

/// The version a rules file must declare to carry a trailer prefix, as written in
/// the refusal that sends an operator to set one.
pub open spec fn spec_unreadable_prefix(
    branch: Seq<char>,
    prefix: Seq<char>,
    rules_file: Seq<char>,
    rules_check: Seq<char>,
    recover: Seq<char>,
) -> Seq<char> {
    "branch "@ + text::spec_debug_quoted(branch) + " carries provenance under the trailer prefix "@
        + text::spec_debug_quoted(prefix)
        + ", which this host is not configured to read. Set trailer_prefix to "@
        + text::spec_debug_quoted(prefix) + " in the rules file at "@ + rules_file
        + ", which must declare version 3 to carry that key; confirm it with `"@ + rules_check
        + "`, then land it with `"@ + recover
        + "`. Until then nothing may publish it as though it were complete"@
}

impl Landing {
    /// The invocation that runs this verb over this branch again.
    pub fn command(&self) -> (out: String)
        ensures
            out@ == spec_verb_command(self.verb, self.branch@, self.repo_argument@),
    {
        self.verb.command(&self.branch, &self.repo_argument)
    }

    /// The invocation that reports which policy this repository resolves to, over
    /// the same argument this verb was given.
    pub fn rules_check(&self) -> (out: String)
        ensures
            out@ == spec_rules_check(self.repo_argument@),
    {
        let argv = vec![
            text::owned("onevcs"),
            text::owned("rules"),
            text::owned("check"),
            self.repo_argument.clone(),
        ];
        proof {
            assert(views(argv@) =~= seq!["onevcs"@, "rules"@, "check"@, self.repo_argument@]);
        }
        guidance::command_of(&argv)
    }

    /// The invocation that runs another branch-keyed verb over this branch.
    pub fn command_for(&self, verb: Verb) -> (out: String)
        ensures
            out@ == spec_verb_command(verb, self.branch@, self.repo_argument@),
    {
        verb.command(&self.branch, &self.repo_argument)
    }

    /// Why a marker written under an unconfigured trailer prefix is refused, and what
    /// to do: configure the prefix, confirm it, and land the branch with `recover`.
    pub fn unreadable_prefix(&self, prefix: &str) -> (out: String)
        ensures
            out@ == spec_unreadable_prefix(
                self.branch@,
                prefix@,
                self.rules_file@,
                spec_rules_check(self.repo_argument@),
                spec_verb_command(Verb::Recover, self.branch@, self.repo_argument@),
            ),
    {
        let mut out = text::owned("branch ");
        let quoted = text::debug_quoted(&self.branch);
        out.append(&quoted);
        out.append(" carries provenance under the trailer prefix ");
        let named = text::debug_quoted(prefix);
        out.append(&named);
        out.append(", which this host is not configured to read. Set trailer_prefix to ");
        out.append(&named);
        out.append(" in the rules file at ");
        out.append(&self.rules_file);
        out.append(", which must declare version 3 to carry that key; confirm it with `",
        );
        let check = self.rules_check();
        out.append(&check);
        out.append("`, then land it with `");
        let recover = self.command_for(Verb::Recover);
        out.append(&recover);
        out.append("`. Until then nothing may publish it as though it were complete");
        out
    }

    /// What the branch has that its change base does not: the question.
    pub fn ahead_args(&self) -> (args: Vec<String>)
        ensures
            views(args@) == git::spec_log_messages_args(
                self.compared_change_base@,
                self.branch@,
            ),
    {
        git::log_messages_args(&self.compared_change_base, &self.branch)
    }

    /// What the branch has that its change base does not, from the clone's answer to
    /// [`Landing::ahead_args`].
    pub fn ahead(&self, answer: Output) -> (r: Result<Vec<CommitMessage>>)
        ensures
            match r {
                Ok(commits) => answer.status == 0 && git::commit_views(commits@)
                    == git::spec_records(text::spec_split(answer.stdout@, '\u{1e}')),
                Err(e) => answer.status != 0 && git::spec_refused(
                    e,
                    git::spec_failed(
                        git::spec_log_messages_args(self.compared_change_base@, self.branch@),
                        answer,
                    ),
                ),
            },
    {
        git::log_messages(&self.compared_change_base, &self.branch, answer)
    }

    /// The commit a publishing push may replace: the host copy this run observed,
    /// and only where a replay rewrote the branch. `None` is an ordinary push.
    pub fn replaced(&self) -> (r: Option<String>)
        ensures
            text::opt_view(r) == (if self.stack_replay is Some {
                text::opt_view(self.observed)
            } else {
                None
            }),
    {
        match (&self.stack_replay, &self.observed) {
            (Some(_), Some(replaced)) => Some(replaced.clone()),
            _ => None,
        }
    }
}

// ---------------------------------------------------------------------------
// Settling what a branch is published onto
// ---------------------------------------------------------------------------

/// What an invalid branch name is refused as.
pub open spec fn spec_not_a_branch(branch: Seq<char>) -> Seq<char> {
    text::spec_debug_quoted(branch)
        + " is not a valid branch name; `onevcs recoverable` lists every preserved branch by name and the checkout it is in"@
}

/// What a recorded base no ref resolves is refused as.
pub open spec fn spec_unresolved_base(
    branch: Seq<char>,
    recorded: Seq<char>,
    source: Seq<char>,
    trailer: Seq<char>,
    command: Seq<char>,
) -> Seq<char> {
    "branch "@ + text::spec_debug_quoted(branch) + " records the base it was stacked on as "@
        + text::spec_debug_quoted(recorded) + ", and neither "@ + source
        + " nor its origin has that branch, so nothing can tell which of the branch's commits belong to the change below it. Restore or push "@
        + text::spec_debug_quoted(recorded) + ", or correct the "@ + trailer
        + " trailer on the branch in "@ + source + ", then land it with `"@ + command + "`"@
}

/// What an unleased replay of a branch already on the host is refused as.
pub open spec fn spec_unleased(
    branch: Seq<char>,
    hosted: Seq<char>,
    source: Seq<char>,
    change_base: Seq<char>,
    command: Seq<char>,
) -> Seq<char> {
    text::spec_debug_quoted(branch) + " is on the host at "@ + hosted + ", and nothing in "@ + source
        + " has ever seen it there — so this run has no commit it can safely replace. This publication replays the branch onto "@
        + text::spec_debug_quoted(change_base)
        + ", and pushing it without knowing what it replaces could overwrite work nobody here has seen. Nothing was pushed and the branch is retained. Fetch the host's copy with `"@
        + guidance::spec_command(seq!["git"@, "-C"@, source, "fetch"@, "origin"@, branch])
        + "`, reconcile it with the branch, and then land it with `"@ + command + "`"@
}

/// The base a branch is published onto, and the stack tip its own commits are
/// replayed from: a branch with no recorded base, or one recorded on the root, goes
/// onto the root as it stands; one whose recorded stack the root already carries
/// goes onto the root, replayed from that stack's tip; any other goes onto the base
/// it recorded. `None` where the recorded base resolves to no tip at all.
pub open spec fn spec_change_base(
    base: Seq<char>,
    recorded: Option<Seq<char>>,
    stack_tip: Option<Seq<char>>,
    root_carries: bool,
) -> Option<(Seq<char>, Option<Seq<char>>)> {
    match recorded {
        None => Some((base, None)),
        Some(r) => if r == base {
            Some((r, None))
        } else {
            match stack_tip {
                None => None,
                Some(tip) => if root_carries {
                    Some((base, Some(tip)))
                } else {
                    Some((r, None))
                },
            }
        },
    }
}

/// An error that is the sync conflict `reason`.
pub open spec fn spec_conflict(e: Error, reason: Seq<char>) -> bool {
    e matches Error::SyncConflict { reason: r } && r@ == reason
}

/// Where one run of a verb is made, once it is admitted: the policy it publishes
/// under, its run root, and the clone and worktree inside it.
#[derive(Debug, Clone)]
pub struct RunPlan {
    /// The policy this run publishes under, once `--policy` has narrowed it.
    pub effective: MergePolicy,
    /// The run root cut under the workspaces directory.
    pub run_root: String,
    /// The disposable clone the branch is imported into.
    pub clone: String,
    /// The worktree a publication is verified in.
    pub worktree: String,
}

/// The run root one run of `verb` on `branch` is cut at, under `workspaces`.
pub open spec fn spec_run_root(workspaces: Seq<char>, verb: Verb, branch: Seq<char>, unique: Seq<char>) -> Seq<
    char,
> {
    workspaces + "/"@ + spec_verb_runs(verb) + "/"@ + crate::policy::spec_branch_slug(branch) + "-"@ + unique
}

/// Admit one run before anything is made for it: a name git would not accept is
/// refused, and so is a `--policy` that would widen what the rules resolved — both
/// decidable without a clone. Only an admitted run has a run root to cut, lease and
/// clone into, so a refusal leaves nothing made.
pub fn plan_run(
    verb: Verb,
    branch: &str,
    branch_valid: bool,
    resolved: &crate::rules::Policy,
    requested: Option<MergePolicy>,
    workspaces: &str,
    unique: &str,
) -> (r: Result<RunPlan>)
    ensures
        !branch_valid ==> r is Err && git::spec_refused(r->Err_0, spec_not_a_branch(branch@)),
        branch_valid && (requested matches Some(p) && crate::policy::spec_review_rank(p)
            < crate::policy::spec_review_rank(resolved.publication)) ==> r is Err && git::spec_refused(
            r->Err_0,
            crate::policy::spec_widening(requested.unwrap(), resolved.publication),
        ),
        r matches Ok(plan) ==> {
            &&& branch_valid
            &&& plan.effective == match requested {
                Some(p) => p,
                None => resolved.publication,
            }
            &&& plan.run_root@ == spec_run_root(workspaces@, verb, branch@, unique@)
            &&& plan.clone@ == plan.run_root@ + "/clone"@
            &&& plan.worktree@ == plan.run_root@ + "/worktree"@
        },
        branch_valid && !(requested matches Some(p) && crate::policy::spec_review_rank(p)
            < crate::policy::spec_review_rank(resolved.publication)) ==> r is Ok,
{
    if !branch_valid {
        let quoted = text::debug_quoted(branch);
        let reason = text::concat(
            &quoted,
            " is not a valid branch name; `onevcs recoverable` lists every preserved branch by name and the checkout it is in",
        );
        return Err(Error::Invalid { reason });
    }
    let effective = match requested {
        Some(p) => crate::policy::narrow(resolved, p)?,
        None => resolved.publication,
    };
    let slug = crate::policy::branch_slug(branch);
    let mut run_root = text::concat3(workspaces, "/", verb.runs());
    run_root.append("/");
    run_root.append(&slug);
    run_root.append("-");
    run_root.append(unique);
    let clone = text::concat(&run_root, "/clone");
    let worktree = text::concat(&run_root, "/worktree");
    Ok(RunPlan { effective, run_root, clone, worktree })
}

/// Everything `prepare` found about a branch before deciding where it lands.
#[derive(Debug, Clone)]
pub struct Found {
    /// Whether git accepts the name as a branch.
    pub branch_valid: bool,
    /// The identity's root base: the remote's default branch.
    pub base: String,
    /// The checkout the branch was located in.
    pub source: String,
    /// The base the branch's preserved commit records it was stacked on, if any.
    pub recorded: Option<String>,
    /// The tip the recorded base still resolves to, the remote's copy first.
    pub stack_tip: Option<String>,
    /// Whether the root base is known to carry the recorded stack.
    pub root_carries: bool,
    /// Where the checkout last saw the host's copy of the branch, before any fetch.
    pub observed: Option<String>,
    /// Where the host's copy of the branch is now.
    pub hosted: Option<String>,
}

/// What `prepare` settles for a branch: the base it is published onto and the tip a
/// replay starts from.
#[derive(Debug, Clone)]
pub struct Settled {
    /// What the branch is published onto and compared against.
    pub change_base: String,
    /// The recorded stack tip its own commits are replayed from, if they are.
    pub stack_replay: Option<String>,
}

/// Settle where a located branch lands, or refuse, in the order an operator meets
/// the refusals: a name git would not accept; a recorded base nothing resolves
/// (named by the `trailer` it was read from); and a replay that would rewrite a
/// copy already on the host that this run never observed there — pushing it would
/// overwrite work nobody here has seen.
pub fn prepare(verb: Verb, repo: &str, branch: &str, trailer: &str, found: &Found) -> (r: Result<
    Settled,
>)
    ensures
        !found.branch_valid ==> r is Err && git::spec_refused(r->Err_0, spec_not_a_branch(branch@)),
        found.branch_valid ==> match spec_change_base(
            found.base@,
            text::opt_view(found.recorded),
            text::opt_view(found.stack_tip),
            found.root_carries,
        ) {
            None => r is Err && git::spec_refused(
                r->Err_0,
                spec_unresolved_base(
                    branch@,
                    found.recorded.unwrap()@,
                    found.source@,
                    trailer@,
                    spec_verb_command(verb, branch@, repo@),
                ),
            ),
            Some((change_base, replay)) => if replay is Some && found.observed is None
                && found.hosted is Some {
                r is Err && spec_conflict(r->Err_0, spec_unleased(
                    branch@,
                    found.hosted.unwrap()@,
                    found.source@,
                    change_base,
                    spec_verb_command(verb, branch@, repo@),
                ))
            } else {
                r is Ok && r.unwrap().change_base@ == change_base && text::opt_view(
                    r.unwrap().stack_replay,
                ) == replay
            },
        },
{
    if !found.branch_valid {
        let quoted = text::debug_quoted(branch);
        let reason = text::concat(
            &quoted,
            " is not a valid branch name; `onevcs recoverable` lists every preserved branch by name and the checkout it is in",
        );
        return Err(Error::Invalid { reason });
    }
    let command = verb.command(branch, repo);
    let settled = match &found.recorded {
        None => Settled { change_base: found.base.clone(), stack_replay: None },
        Some(recorded) => {
            if text::str_eq(recorded, &found.base) {
                Settled { change_base: recorded.clone(), stack_replay: None }
            } else {
                match &found.stack_tip {
                    None => {
                        let mut reason = text::owned("branch ");
                        let quoted = text::debug_quoted(branch);
                        reason.append(&quoted);
                        reason.append(" records the base it was stacked on as ");
                        let named = text::debug_quoted(recorded);
                        reason.append(&named);
                        reason.append(", and neither ");
                        reason.append(&found.source);
                        reason.append(" nor its origin has that branch, so nothing can tell which of the branch's commits belong to the change below it. Restore or push ",
                        );
                        reason.append(&named);
                        reason.append(", or correct the ");
                        reason.append(trailer);
                        reason.append(" trailer on the branch in ");
                        reason.append(&found.source);
                        reason.append(", then land it with `");
                        reason.append(&command);
                        reason.append("`");
                        return Err(Error::Invalid { reason });
                    },
                    Some(tip) => {
                        if found.root_carries {
                            Settled { change_base: found.base.clone(), stack_replay: Some(tip.clone()) }
                        } else {
                            Settled { change_base: recorded.clone(), stack_replay: None }
                        }
                    },
                }
            }
        },
    };
    if settled.stack_replay.is_some() && found.observed.is_none() {
        if let Some(hosted) = &found.hosted {
            let mut reason = text::debug_quoted(branch);
            reason.append(" is on the host at ");
            reason.append(hosted);
            reason.append(", and nothing in ");
            reason.append(&found.source);
            reason.append(" has ever seen it there — so this run has no commit it can safely replace. This publication replays the branch onto ",
            );
            let onto = text::debug_quoted(&settled.change_base);
            reason.append(&onto);
            reason.append(", and pushing it without knowing what it replaces could overwrite work nobody here has seen. Nothing was pushed and the branch is retained. Fetch the host's copy with `",
            );
            let argv = vec![
                text::owned("git"),
                text::owned("-C"),
                found.source.clone(),
                text::owned("fetch"),
                text::owned("origin"),
                text::owned(branch),
            ];
            proof {
                assert(views(argv@) =~= seq!["git"@, "-C"@, found.source@, "fetch"@, "origin"@, branch@]);
            }
            let fetch = guidance::command_of(&argv);
            reason.append(&fetch);
            reason.append("`, reconcile it with the branch, and then land it with `");
            reason.append(&command);
            reason.append("`");
            return Err(Error::SyncConflict { reason });
        }
    }
    Ok(settled)
}

/// A branch that carries no record of a stack is published onto the root base as it
/// stands, and nothing of it is replayed.
pub proof fn lemma_unrecorded_lands_on_root(base: Seq<char>, stack_tip: Option<Seq<char>>, root_carries: bool)
    ensures
        spec_change_base(base, None, stack_tip, root_carries) == Some((base, None::<Seq<char>>)),
{
}

/// Only a replay moves a branch off the base it recorded: where nothing is replayed,
/// the branch lands on the base it recorded (or the root, recording none).
pub proof fn lemma_replay_only_onto_root(
    base: Seq<char>,
    recorded: Option<Seq<char>>,
    stack_tip: Option<Seq<char>>,
    root_carries: bool,
)
    requires
        spec_change_base(base, recorded, stack_tip, root_carries) is Some,
    ensures
        ({
            let (onto, replay) = spec_change_base(base, recorded, stack_tip, root_carries).unwrap();
            &&& replay is Some ==> onto == base && replay == stack_tip && root_carries
            &&& replay is None ==> onto == match recorded {
                Some(r) => r,
                None => base,
            }
        }),
{
}

// ---------------------------------------------------------------------------
// Finding the copy of a branch that is the work
// ---------------------------------------------------------------------------

/// What one copy of a branch holds that the base it would be published onto does not.
#[derive(Debug, Clone, Copy, PartialEq, Eq, Structural)]
pub enum Holds {
    /// Content the base does not have: work a publication would land.
    Work,
    /// Nothing the base does not already have.
    WhatTheBaseHas,
}

/// One checkout's copy of a branch: the commit the name stands at there, and what
/// that copy holds.
#[derive(Debug, Clone)]
pub struct Held {
    /// The checkout that holds it.
    pub checkout: String,
    /// The commit the branch stands at there.
    pub tip: String,
    /// What it holds beyond the base.
    pub holds: Holds,
}

/// How one copy is spelled, in the line that chooses and the refusal that cannot.
pub open spec fn spec_describe(copy: Held) -> Seq<char> {
    copy.checkout@ + " at "@ + copy.tip@ + match copy.holds {
        Holds::Work => seq![],
        Holds::WhatTheBaseHas => " (already in the base)"@,
    }
}

impl Held {
    /// One spelling for both the line that chooses and the refusal that cannot.
    pub fn describe(&self) -> (out: String)
        ensures
            out@ == spec_describe(*self),
    {
        let mut out = text::concat3(&self.checkout, " at ", &self.tip);
        match self.holds {
            Holds::Work => {
                assert(out@ =~= out@ + Seq::<char>::empty());
            },
            Holds::WhatTheBaseHas => out.append(" (already in the base)"),
        }
        out
    }
}

/// Which copy a search settled on.
#[derive(Debug, Clone, Copy, PartialEq, Eq, Structural)]
pub enum Located {
    /// This copy is the one to publish.
    Chosen(usize),
    /// No checkout holds the branch.
    Nowhere,
    /// Copies have diverged and none carries the rest; the first copy and this one,
    /// at a different commit from it, are the pair the refusal reconciles.
    Diverged(usize),
}

/// Whether copy `i` carries every copy: `reaches[i][j]` says copy `i`'s checkout can
/// show its own tip reaches copy `j`'s.
pub open spec fn spec_carries(reaches: Seq<Vec<bool>>, i: int) -> bool {
    forall|j: int| 0 <= j < reaches.len() ==> #[trigger] reaches[i]@[j]
}

/// The first copy, from `from` on, that carries every copy.
pub open spec fn spec_first_carrier(reaches: Seq<Vec<bool>>, from: int) -> Option<int>
    decreases reaches.len() - from,
{
    if from < 0 || from >= reaches.len() {
        None
    } else if spec_carries(reaches, from) {
        Some(from)
    } else {
        spec_first_carrier(reaches, from + 1)
    }
}

/// Whether every copy holds only what the base has.
pub open spec fn spec_all_in_base(held: Seq<Held>) -> bool {
    forall|i: int| 0 <= i < held.len() ==> #[trigger] held[i].holds == Holds::WhatTheBaseHas
}

/// The first copy, after the first, standing at a different commit from it.
pub open spec fn spec_first_differing(held: Seq<Held>, from: int) -> Option<int>
    decreases held.len() - from,
{
    if from < 1 || from >= held.len() {
        None
    } else if held[from].tip@ != held[0].tip@ {
        Some(from)
    } else {
        spec_first_differing(held, from + 1)
    }
}

/// Which copy of a branch a search settles on: none where no checkout has it; the
/// only one where one does; the first where every copy holds only what the base
/// has, since passing those over discards nothing; otherwise the first copy that
/// carries every other; and where none does, a divergence between the first copy
/// and the first at a different commit from it.
pub open spec fn spec_locate(held: Seq<Held>, reaches: Seq<Vec<bool>>) -> Located {
    if held.len() == 0 {
        Located::Nowhere
    } else if held.len() == 1 || spec_all_in_base(held) {
        Located::Chosen(0)
    } else {
        match spec_first_carrier(reaches, 0) {
            Some(i) => Located::Chosen(i as usize),
            None => Located::Diverged(
                match spec_first_differing(held, 1) {
                    Some(j) => j as usize,
                    None => 1,
                },
            ),
        }
    }
}

/// Choose the copy of a branch that is the work rather than the name, from the
/// copies every checkout of the identity holds and which of their tips each one can
/// show it reaches. A comparison rather than a tier order: equal tips carry each
/// other, so the first in order wins among them.
pub fn locate(held: &[Held], reaches: &[Vec<bool>]) -> (r: Located)
    requires
        reaches@.len() == held@.len(),
        forall|i: int| 0 <= i < reaches@.len() ==> #[trigger] reaches@[i]@.len() == held@.len(),
    ensures
        r == spec_locate(held@, reaches@),
{
    let n = held.len();
    if n == 0 {
        return Located::Nowhere;
    }
    if n == 1 {
        return Located::Chosen(0);
    }
    let mut all_base = true;
    let mut k: usize = 0;
    while k < n
        invariant
            n == held@.len(),
            k <= n,
            all_base == forall|i: int| 0 <= i < k ==> #[trigger] held@[i].holds
                == Holds::WhatTheBaseHas,
        decreases n - k,
    {
        all_base = all_base && held[k].holds == Holds::WhatTheBaseHas;
        k = k + 1;
    }
    if all_base {
        return Located::Chosen(0);
    }
    assert(!spec_all_in_base(held@));
    let mut i: usize = 0;
    while i < n
        invariant
            n >= 2,
            !spec_all_in_base(held@),
            n == held@.len(),
            n == reaches@.len(),
            forall|x: int| 0 <= x < reaches@.len() ==> #[trigger] reaches@[x]@.len() == n,
            i <= n,
            spec_first_carrier(reaches@, 0) == spec_first_carrier(reaches@, i as int),
        decreases n - i,
    {
        let mut carries = true;
        let mut j: usize = 0;
        while j < n
            invariant
                n == reaches@.len(),
                i < n,
                reaches@[i as int]@.len() == n,
                j <= n,
                carries == forall|y: int| 0 <= y < j ==> #[trigger] reaches@[i as int]@[y],
            decreases n - j,
        {
            carries = carries && reaches[i][j];
            j = j + 1;
        }
        if carries {
            proof {
                assert(spec_carries(reaches@, i as int));
            }
            return Located::Chosen(i);
        }
        proof {
            assert(!spec_carries(reaches@, i as int));
        }
        i = i + 1;
    }
    let mut d: usize = 1;
    while d < n
        invariant
            n >= 2,
            !spec_all_in_base(held@),
            spec_first_carrier(reaches@, 0) is None,
            n == held@.len(),
            1 <= d <= n,
            spec_first_differing(held@, 1) == spec_first_differing(held@, d as int),
        decreases n - d,
    {
        if !text::str_eq(&held[d].tip, &held[0].tip) {
            return Located::Diverged(d);
        }
        d = d + 1;
    }
    Located::Diverged(1)
}

/// A copy that the search chooses is one of the copies; a divergence names two
/// different ones, the second after the first.
pub proof fn lemma_located_is_a_copy(held: Seq<Held>, reaches: Seq<Vec<bool>>)
    requires
        reaches.len() == held.len(),
        held.len() <= usize::MAX,
    ensures
        spec_locate(held, reaches) matches Located::Chosen(i) ==> i < held.len(),
        spec_locate(held, reaches) matches Located::Diverged(j) ==> 1 <= j < held.len(),
        spec_locate(held, reaches) is Nowhere <==> held.len() == 0,
{
    lemma_first_carrier_in_range(reaches, 0);
    lemma_first_differing_in_range(held, 1);
}

proof fn lemma_first_carrier_in_range(reaches: Seq<Vec<bool>>, from: int)
    ensures
        spec_first_carrier(reaches, from) matches Some(i) ==> 0 <= from <= i < reaches.len()
            && spec_carries(reaches, i),
    decreases reaches.len() - from,
{
    if 0 <= from < reaches.len() && !spec_carries(reaches, from) {
        lemma_first_carrier_in_range(reaches, from + 1);
    }
}

proof fn lemma_first_differing_in_range(held: Seq<Held>, from: int)
    ensures
        spec_first_differing(held, from) matches Some(j) ==> 1 <= from <= j < held.len()
            && held[j].tip@ != held[0].tip@,
    decreases held.len() - from,
{
    if 1 <= from < held.len() && held[from].tip@ == held[0].tip@ {
        lemma_first_differing_in_range(held, from + 1);
    }
}

/// Say which copy of a branch is being published and which were passed over; nothing
/// where every copy is at the chosen commit, since nothing was chosen between there.
pub open spec fn spec_announce(branch: Seq<char>, chosen: Held, held: Seq<Held>) -> Option<Seq<char>> {
    if forall|i: int| 0 <= i < held.len() ==> #[trigger] held[i].tip@ == chosen.tip@ {
        None
    } else {
        Some(
            "onevcs: branch "@ + text::spec_debug_quoted(branch) + " is in "@ + text::spec_decimal(
                held.len(),
            ) + " checkouts of this identity, and the copy in "@ + spec_describe(chosen)
                + " is the one being published; passed over: "@ + spec_join(
                held.filter(|copy: Held| copy.checkout@ != chosen.checkout@).map_values(
                    |copy: Held| spec_describe(copy),
                ),
                ", "@,
            ),
        )
    }
}

/// The line, for stderr, that says which copy is being published.
pub fn announce(branch: &str, chosen: &Held, held: &[Held]) -> (r: Option<String>)
    ensures
        text::opt_view(r) == spec_announce(branch@, *chosen, held@),
{
    let mut same = true;
    let mut k: usize = 0;
    while k < held.len()
        invariant
            k <= held@.len(),
            same == forall|i: int| 0 <= i < k ==> #[trigger] held@[i].tip@ == chosen.tip@,
        decreases held.len() - k,
    {
        same = same && text::str_eq(&held[k].tip, &chosen.tip);
        k = k + 1;
    }
    if same {
        return None;
    }
    let ghost passed = held@.filter(|copy: Held| copy.checkout@ != chosen.checkout@);
    let mut described: Vec<String> = Vec::new();
    let mut i: usize = 0;
    while i < held.len()
        invariant
            i <= held@.len(),
            views(described@) == held@.take(i as int).filter(
                |copy: Held| copy.checkout@ != chosen.checkout@,
            ).map_values(|copy: Held| spec_describe(copy)),
        decreases held.len() - i,
    {
        let ghost before = held@.take(i as int).filter(|copy: Held| copy.checkout@ != chosen.checkout@);
        proof {
            assert(held@.take(i + 1) =~= held@.take(i as int).push(held@[i as int]));
            held@.take(i as int).lemma_filter_push(
                held@[i as int],
                |copy: Held| copy.checkout@ != chosen.checkout@,
            );
        }
        if !text::str_eq(&held[i].checkout, &chosen.checkout) {
            let line = held[i].describe();
            let ghost old = described@;
            described.push(line);
            proof {
                assert(views(described@) =~= views(old).push(spec_describe(held@[i as int])));
                assert(before.push(held@[i as int]).map_values(|copy: Held| spec_describe(copy))
                    =~= before.map_values(|copy: Held| spec_describe(copy)).push(
                    spec_describe(held@[i as int]),
                ));
            }
        }
        i = i + 1;
    }
    proof {
        assert(held@.take(held@.len() as int) =~= held@);
    }
    let mut out = text::owned("onevcs: branch ");
    let quoted = text::debug_quoted(branch);
    out.append(&quoted);
    out.append(" is in ");
    let count = text::decimal(held.len() as u64);
    out.append(&count);
    out.append(" checkouts of this identity, and the copy in ");
    let chosen_line = chosen.describe();
    out.append(&chosen_line);
    out.append(" is the one being published; passed over: ");
    let listed = text::join(&described, ", ");
    out.append(&listed);
    Some(out)
}

/// One copy's commit, as the facts the comparison is made of.
pub open spec fn spec_facts_of(copy: Held, shape: git::Shape) -> Seq<char> {
    "the copy in "@ + copy.checkout@ + " stands at "@ + copy.tip@ + ", on parent(s) "@
        + text::spec_debug_quoted(shape.parents@) + ", with the subject "@
        + text::spec_debug_quoted(shape.subject@) + ", the tree "@ + shape.tree@
        + ", and the commit date "@ + shape.committed@
}

/// One copy's commit, as the facts the comparison is made of.
pub fn facts_of(copy: &Held, shape: &git::Shape) -> (out: String)
    ensures
        out@ == spec_facts_of(*copy, *shape),
{
    let mut out = text::concat3("the copy in ", &copy.checkout, " stands at ");
    out.append(&copy.tip);
    out.append(", on parent(s) ");
    let parents = text::debug_quoted(&shape.parents);
    out.append(&parents);
    out.append(", with the subject ");
    let subject = text::debug_quoted(&shape.subject);
    out.append(&subject);
    out.append(", the tree ");
    out.append(&shape.tree);
    out.append(", and the commit date ");
    out.append(&shape.committed);
    out
}

/// Two commits that look like an amend of one another: the same parents and subject
/// over a different tree.
pub open spec fn spec_amended(a: git::Shape, b: git::Shape) -> bool {
    a.parents@ == b.parents@ && a.subject@ == b.subject@ && a.tree@ != b.tree@
}

/// How an amend is described.
pub const AMENDED: &'static str = "the way an amend does — the same parent and the same subject over a different tree, so one of them was re-committed after the other was taken";

/// How two separate commits are described.
pub const SEPARATE: &'static str = "as two separate commits do";

/// How two copies of one branch differ, in the facts that say which is which.
pub open spec fn spec_differ(into: Held, into_shape: git::Shape, from: Held, from_shape: git::Shape) -> Seq<
    char,
> {
    "They differ "@ + (if spec_amended(into_shape, from_shape) {
        AMENDED@
    } else {
        SEPARATE@
    }) + ": "@ + spec_facts_of(into, into_shape) + ", and "@ + spec_facts_of(from, from_shape)
}

/// How two copies of one branch differ, in the facts that say which is which.
pub fn differ(into: &Held, into_shape: &git::Shape, from: &Held, from_shape: &git::Shape) -> (out:
    String)
    ensures
        out@ == spec_differ(*into, *into_shape, *from, *from_shape),
{
    let amended = text::str_eq(&into_shape.parents, &from_shape.parents) && text::str_eq(
        &into_shape.subject,
        &from_shape.subject,
    ) && !text::str_eq(&into_shape.tree, &from_shape.tree);
    let mut out = text::owned("They differ ");
    out.append(if amended { AMENDED } else { SEPARATE });
    out.append(": ");
    let first = facts_of(into, into_shape);
    out.append(&first);
    out.append(", and ");
    let second = facts_of(from, from_shape);
    out.append(&second);
    out
}

/// What a branch no checkout holds is refused as.
pub open spec fn spec_nowhere(identity: Seq<char>, branch: Seq<char>, searched: Seq<Seq<char>>) -> Seq<
    char,
> {
    "branch "@ + text::spec_debug_quoted(branch) + " is in none of the checkouts of identity "@
        + text::spec_debug_quoted(identity) + ": "@ + spec_join(searched, ", "@)
        + ". `onevcs recoverable` lists every preserved branch and the checkout it is in"@
}

/// Refuse a branch that none of the searched checkouts holds.
pub fn nowhere(identity: &str, branch: &str, searched: &[String]) -> (e: Error)
    ensures
        git::spec_refused(e, spec_nowhere(identity@, branch@, views(searched@))),
{
    let mut reason = text::owned("branch ");
    let quoted = text::debug_quoted(branch);
    reason.append(&quoted);
    reason.append(" is in none of the checkouts of identity ");
    let named = text::debug_quoted(identity);
    reason.append(&named);
    reason.append(": ");
    let listed = text::join(searched, ", ");
    reason.append(&listed);
    reason.append(". `onevcs recoverable` lists every preserved branch and the checkout it is in",
    );
    Error::Invalid { reason }
}

/// Every copy, spelled as [`Held::describe`] spells it.
fn describe_all(held: &[Held]) -> (out: Vec<String>)
    ensures
        views(out@) == held@.map_values(|copy: Held| spec_describe(copy)),
{
    let mut out: Vec<String> = Vec::new();
    let mut i: usize = 0;
    while i < held.len()
        invariant
            i <= held@.len(),
            views(out@) == held@.take(i as int).map_values(|copy: Held| spec_describe(copy)),
        decreases held.len() - i,
    {
        let line = held[i].describe();
        let ghost before = out@;
        out.push(line);
        proof {
            assert(held@.take(i + 1) =~= held@.take(i as int).push(held@[i as int]));
            assert(views(out@) =~= views(before).push(spec_describe(held@[i as int])));
            assert(held@.take(i + 1).map_values(|copy: Held| spec_describe(copy)) =~= held@.take(
                i as int,
            ).map_values(|copy: Held| spec_describe(copy)).push(spec_describe(held@[i as int])));
        }
        i = i + 1;
    }
    proof {
        assert(held@.take(held@.len() as int) =~= held@);
    }
    out
}

/// The fetch that brings one copy of a branch into another checkout.
pub open spec fn spec_fetch_between(branch: Seq<char>, into: Held, from: Held) -> Seq<char> {
    guidance::spec_command(seq!["git"@, "-C"@, into.checkout@, "fetch"@, from.checkout@, branch])
}

/// The diff between two copies' commits, run in the checkout of the first.
pub open spec fn spec_diff_between(into: Held, from: Held) -> Seq<char> {
    guidance::spec_command(seq!["git"@, "-C"@, into.checkout@, "diff"@, "--stat"@, into.tip@, from.tip@])
}

/// What copies of one branch that have diverged are refused as.
pub open spec fn spec_diverged(
    branch: Seq<char>,
    identity: Seq<char>,
    next: Seq<char>,
    held: Seq<Held>,
    into: Held,
    from: Held,
    differ: Seq<char>,
) -> Seq<char> {
    "branch "@ + text::spec_debug_quoted(branch) + " is in "@ + text::spec_decimal(held.len())
        + " checkouts of identity "@ + text::spec_debug_quoted(identity)
        + ", and no copy of it carries the rest, so nothing here can tell which copy is the work and taking one would discard the other: "@
        + spec_join(held.map_values(|copy: Held| spec_describe(copy)), ", "@) + ". "@ + differ
        + ". Reconcile them in one checkout — `"@ + spec_fetch_between(branch, into, from) + "` brings "@
        + from.checkout@ + "'s copy into "@ + into.checkout@ + " as FETCH_HEAD, `"@ + spec_diff_between(into, from)
        + "` then shows what the two differ by, and merging or rebasing onto the one that is there keeps both — or delete the copy that is not the work, and then "@
        + next
}

/// Why copies of one branch that have diverged are refused, and what resolves it:
/// every checkout holding the branch with the commit it holds, how the two copies
/// `into` and `from` differ (`differ`), the fetch and diff that reconcile them, and
/// `next`, what to do with the branch afterwards.
pub fn diverged(
    branch: &str,
    identity: &str,
    next: &str,
    held: &[Held],
    into: &Held,
    from: &Held,
    differ: &str,
) -> (e: Error)
    ensures
        git::spec_refused(e, spec_diverged(branch@, identity@, next@, held@, *into, *from, differ@)),
{
    let mut reason = text::concat3("branch ", &text::debug_quoted(branch), " is in ");
    reason.append(&text::decimal(held.len() as u64));
    reason.append(" checkouts of identity ");
    reason.append(&text::debug_quoted(identity));
    reason.append(", and no copy of it carries the rest, so nothing here can tell which copy is the work and taking one would discard the other: ",
    );
    let described = describe_all(held);
    reason.append(&text::join(&described, ", "));
    reason.append(". ");
    reason.append(differ);
    reason.append(". Reconcile them in one checkout — `");
    let fetch = vec![
        text::owned("git"),
        text::owned("-C"),
        into.checkout.clone(),
        text::owned("fetch"),
        from.checkout.clone(),
        text::owned(branch),
    ];
    proof {
        assert(views(fetch@) =~= seq!["git"@, "-C"@, into.checkout@, "fetch"@, from.checkout@, branch@]);
    }
    reason.append(&guidance::command_of(&fetch));
    reason.append("` brings ");
    reason.append(&from.checkout);
    reason.append("'s copy into ");
    reason.append(&into.checkout);
    reason.append(" as FETCH_HEAD, `");
    let diff = vec![
        text::owned("git"),
        text::owned("-C"),
        into.checkout.clone(),
        text::owned("diff"),
        text::owned("--stat"),
        into.tip.clone(),
        from.tip.clone(),
    ];
    proof {
        assert(views(diff@) =~= seq!["git"@, "-C"@, into.checkout@, "diff"@, "--stat"@, into.tip@, from.tip@]);
    }
    reason.append(&guidance::command_of(&diff));
    reason.append("` then shows what the two differ by, and merging or rebasing onto the one that is there keeps both — or delete the copy that is not the work, and then ",
    );
    reason.append(next);
    Error::Invalid { reason }
}

/// How a branch was brought level with its change base.
#[derive(Debug, Clone, PartialEq, Eq)]
pub enum Reconciliation {
    /// Its own commits were replayed onto the change base, from this commit on,
    /// because what it was stacked on has already landed there.
    Replay {
        /// The commit its own commits start after.
        from: String,
    },
    /// The change base was merged into it.
    Merge,
}

/// What bringing a branch level with its change base came to.
#[derive(Debug, Clone, PartialEq, Eq)]
pub enum Reconciled {
    /// It is level now.
    Settled,
    /// It conflicted, and this was what was attempted.
    Conflicted(Reconciliation),
}

/// The replay an operator runs to resolve a conflict by hand.
pub open spec fn spec_replay(compared: Seq<char>, from: Seq<char>, branch: Seq<char>) -> Seq<char> {
    guidance::spec_command(seq!["git"@, "rebase"@, "--onto"@, compared, from, branch])
}

/// What a branch that conflicts with its change base is refused as: it conflicts
/// again on every re-run, so the refusal names where the branch is kept, the
/// resolution that matches what was attempted, and the command that lands it after.
pub open spec fn spec_sync_conflict(
    compared: Seq<char>,
    branch: Seq<char>,
    source: Seq<char>,
    command: Seq<char>,
    attempted: Reconciliation,
) -> Seq<char> {
    match attempted {
        Reconciliation::Replay { from } => compared + " conflicts with "@ + text::spec_debug_quoted(branch)
            + ", and re-running will conflict again: "@ + compared + " already carries what "@
            + text::spec_debug_quoted(branch) + " was stacked on, so this verb replays only its own commits onto "@
            + compared + " and nothing about either has changed. The branch is retained in "@ + source
            + " — resolve the conflict on it there, by replaying it with `"@ + spec_replay(compared, from@, branch)
            + "` and committing the resolution, and then land it with `"@ + command + "`, which is what publishes it"@,
        Reconciliation::Merge => compared + " conflicts with "@ + text::spec_debug_quoted(branch)
            + ", and re-running will conflict again: "@ + "this verb merges "@ + compared
            + " into the branch and nothing about either has changed. The branch is retained in "@ + source
            + " — resolve the conflict on it there, by merging "@ + compared
            + " into it and committing the resolution, and then land it with `"@ + command
            + "`, which is what publishes it"@,
    }
}

impl Landing {
    /// Bring the branch level with the change base before anything is verified, from
    /// what reconciling it came to: nothing more where it settled; and where it did
    /// not, one `sync-conflict` event naming the branch and the change base, written
    /// before the conflict refusal answers. The branch in the source is untouched
    /// either way.
    pub fn sync_change_base(&self, reconciled: &Reconciled) -> (r: (Option<Emitted>, Result<()>))
        ensures
            match *reconciled {
                Reconciled::Settled => r.0 is None && r.1 is Ok,
                Reconciled::Conflicted(attempted) => {
                    &&& r.0 matches Some(event) && event.kind == EventKind::SyncConflict && fields_view(
                        event.fields@,
                    ) == seq![("branch"@, self.branch@), ("base"@, self.change_base@)]
                    &&& r.1 is Err && spec_conflict(
                        r.1->Err_0,
                        spec_sync_conflict(
                            self.compared_change_base@,
                            self.branch@,
                            self.source@,
                            spec_verb_command(self.verb, self.branch@, self.repo_argument@),
                            attempted,
                        ),
                    )
                },
            },
    {
        match reconciled {
            Reconciled::Settled => (None, Ok(())),
            Reconciled::Conflicted(attempted) => {
                let fields = vec![
                    (text::owned("branch"), self.branch.clone()),
                    (text::owned("base"), self.change_base.clone()),
                ];
                proof {
                    assert(fields_view(fields@) =~= seq![("branch"@, self.branch@), ("base"@, self.change_base@)]);
                }
                let event = Emitted { kind: EventKind::SyncConflict, fields };
                (Some(event), Err(self.conflict_refusal(attempted)))
            },
        }
    }

    fn conflict_refusal(&self, attempted: &Reconciliation) -> (e: Error)
        ensures
            spec_conflict(
                e,
                spec_sync_conflict(
                    self.compared_change_base@,
                    self.branch@,
                    self.source@,
                    spec_verb_command(self.verb, self.branch@, self.repo_argument@),
                    *attempted,
                ),
            ),
    {
        let compared = &self.compared_change_base;
        let quoted = text::debug_quoted(&self.branch);
        let command = self.command();
        let mut reason = text::concat3(compared, " conflicts with ", &quoted);
        reason.append(", and re-running will conflict again: ");
        match attempted {
            Reconciliation::Replay { from } => {
                reason.append(compared);
                reason.append(" already carries what ");
                reason.append(&quoted);
                reason.append(" was stacked on, so this verb replays only its own commits onto ");
                reason.append(compared);
                reason.append(" and nothing about either has changed. The branch is retained in ");
                reason.append(&self.source);
                reason.append(" — resolve the conflict on it there, by replaying it with `");
                let replay = vec![
                    text::owned("git"),
                    text::owned("rebase"),
                    text::owned("--onto"),
                    compared.clone(),
                    from.clone(),
                    self.branch.clone(),
                ];
                proof {
                    assert(views(replay@) =~= seq!["git"@, "rebase"@, "--onto"@, compared@, from@, self.branch@]);
                }
                let replayed = guidance::command_of(&replay);
                reason.append(&replayed);
                reason.append("` and committing the resolution, and then land it with `");
                reason.append(&command);
                reason.append("`, which is what publishes it");
            },
            Reconciliation::Merge => {
                reason.append("this verb merges ");
                reason.append(compared);
                reason.append(" into the branch and nothing about either has changed. The branch is retained in ");
                reason.append(&self.source);
                reason.append(" — resolve the conflict on it there, by merging ");
                reason.append(compared);
                reason.append(" into it and committing the resolution, and then land it with `");
                reason.append(&command);
                reason.append("`, which is what publishes it");
                proof {
                    assert(reason@ =~= spec_sync_conflict(
                        self.compared_change_base@,
                        self.branch@,
                        self.source@,
                        command@,
                        *attempted,
                    ));
                }
            },
        }
        Error::SyncConflict { reason }
    }
}

} // verus!
