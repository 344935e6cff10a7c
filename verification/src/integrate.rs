//! The merge train: landing finished branches on a local base, in order.
//!
//! One failure does not block the others. Each candidate merges the current base in
//! its own worktree and is then squash-published onto the base checkout. What
//! verifies a train is the repository's own `pre-push` hook, at the push that
//! publishes the advanced base.

use vstd::prelude::*;

use crate::error::{Error, Result};
use crate::git::{self, Pushed};
use crate::guidance;
use crate::text::{self, spec_join, views};

verus! {

/// What happened to one candidate of the train.
#[derive(Debug, Clone, PartialEq, Eq)]
pub enum Status {
    /// It was verified and landed on the base as one commit.
    Merged,
    /// Its content was already on the base, so there was nothing to add.
    AlreadyMerged,
    /// It was left where it was, for this reason.
    Skipped(String),
}

/// How the train reports a candidate's status.
pub open spec fn spec_status(status: Status) -> Seq<char> {
    match status {
        Status::Merged => "merged"@,
        Status::AlreadyMerged => "already-merged"@,
        Status::Skipped(reason) => "skipped ("@ + reason@ + ")"@,
    }
}

impl Status {
    /// How the train reports it.
    pub fn describe(&self) -> (out: String)
        ensures
            out@ == spec_status(*self),
    {
        match self {
            Status::Merged => text::owned("merged"),
            Status::AlreadyMerged => text::owned("already-merged"),
            Status::Skipped(reason) => text::concat3("skipped (", reason, ")"),
        }
    }
}

/// What one candidate of the train did.
#[derive(Debug, Clone)]
pub struct BranchOutcome {
    /// The candidate.
    pub branch: String,
    /// What happened to it.
    pub status: Status,
}

/// Where the train left the base: a base that never moved cannot have been pushed.
#[derive(Debug, Clone, Copy, PartialEq, Eq, Structural)]
pub enum Ending {
    /// Every candidate was skipped or was already on the base.
    Unchanged,
    /// At least one candidate landed, and the base was left local.
    Advanced,
    /// At least one candidate landed, and the advanced base reached the remote.
    AdvancedAndPushed,
}

impl Ending {
    /// Whether the base moved at all.
    pub fn advanced(self) -> (b: bool)
        ensures
            b == (self != Ending::Unchanged),
    {
        self != Ending::Unchanged
    }

    /// Whether the advanced base reached the remote.
    pub fn pushed(self) -> (b: bool)
        ensures
            b == (self == Ending::AdvancedAndPushed),
    {
        self == Ending::AdvancedAndPushed
    }

    /// Where the base stands after the candidates: unchanged where its head is the
    /// commit it started at, advanced otherwise.
    pub fn of(initial: &str, now: &str) -> (e: Ending)
        ensures
            e == (if initial@ == now@ {
                Ending::Unchanged
            } else {
                Ending::Advanced
            }),
    {
        if text::str_eq(initial, now) {
            Ending::Unchanged
        } else {
            Ending::Advanced
        }
    }
}

/// A train that pushed moved its base: "pushed an unchanged base" is no state it can
/// end in.
pub proof fn lemma_pushed_means_advanced(ending: Ending)
    ensures
        ending == Ending::AdvancedAndPushed ==> ending != Ending::Unchanged,
{
}

/// What the whole train did.
#[derive(Debug, Clone)]
pub struct Outcome {
    /// The base the train landed on.
    pub base: String,
    /// Each candidate, in the order it was offered.
    pub branches: Vec<BranchOutcome>,
    /// Where it left the base.
    pub ending: Ending,
}

/// How a report answers a question asked in the plural.
pub open spec fn spec_yes_or_no(answer: bool) -> Seq<char> {
    if answer {
        "yes"@
    } else {
        "no"@
    }
}

/// The report the train prints: the base, each candidate with what became of it,
/// and whether the base advanced and was pushed.
pub open spec fn spec_train_lines(outcome: Outcome) -> Seq<Seq<char>> {
    seq!["Integration train for "@ + outcome.base@ + ":"@] + outcome.branches@.map_values(
        |b: BranchOutcome| "  "@ + b.branch@ + ": "@ + spec_status(b.status),
    ) + seq![
        "Base advanced: "@ + spec_yes_or_no(outcome.ending != Ending::Unchanged),
        "Pushed: "@ + spec_yes_or_no(outcome.ending == Ending::AdvancedAndPushed),
    ]
}

impl Outcome {
    /// The report the train prints, line by line.
    pub fn render(&self) -> (out: Vec<String>)
        ensures
            views(out@) == spec_train_lines(*self),
    {
        let mut lines: Vec<String> = Vec::new();
        lines.push(text::concat3("Integration train for ", &self.base, ":"));
        let mut i: usize = 0;
        while i < self.branches.len()
            invariant
                i <= self.branches@.len(),
                views(lines@) == seq!["Integration train for "@ + self.base@ + ":"@]
                    + self.branches@.take(i as int).map_values(
                    |b: BranchOutcome| "  "@ + b.branch@ + ": "@ + spec_status(b.status),
                ),
            decreases self.branches.len() - i,
        {
            let b = &self.branches[i];
            let status = b.status.describe();
            let line = text::concat4("  ", &b.branch, ": ", &status);
            let ghost before = views(lines@);
            let ghost said = line@;
            lines.push(line);
            proof {
                assert(views(lines@) =~= before.push(said));
                assert(self.branches@.take(i + 1) =~= self.branches@.take(i as int).push(self.branches@[i as int]));
                assert(views(lines@) =~= seq!["Integration train for "@ + self.base@ + ":"@]
                    + self.branches@.take(i + 1).map_values(
                    |b: BranchOutcome| "  "@ + b.branch@ + ": "@ + spec_status(b.status),
                ));
            }
            i = i + 1;
        }
        proof {
            assert(self.branches@.take(self.branches@.len() as int) =~= self.branches@);
        }
        let ghost before = views(lines@);
        let advanced = text::concat("Base advanced: ", if self.ending.advanced() { "yes" } else { "no" });
        let pushed = text::concat("Pushed: ", if self.ending.pushed() { "yes" } else { "no" });
        let ghost a = advanced@;
        let ghost p = pushed@;
        lines.push(advanced);
        lines.push(pushed);
        proof {
            assert(views(lines@) =~= before + seq![a, p]);
        }
        lines
    }
}

// ---------------------------------------------------------------------------
// Commands a refusal names
// ---------------------------------------------------------------------------

/// The command that publishes one candidate through its change-request path.
pub open spec fn spec_publish_command(branch: Seq<char>, repo: Seq<char>) -> Seq<char> {
    guidance::spec_command(seq!["onevcs"@, "publish-branch"@, branch, "--repo"@, repo])
}

/// The command that recovers one candidate.
pub open spec fn spec_recover_command(branch: Seq<char>, repo: Seq<char>) -> Seq<char> {
    guidance::spec_command(seq!["onevcs"@, "recover"@, branch, "--repo"@, repo])
}

fn branch_command(verb: &str, branch: &str, repo: &str) -> (out: String)
    ensures
        out@ == guidance::spec_command(seq!["onevcs"@, verb@, branch@, "--repo"@, repo@]),
{
    let argv = vec![
        text::owned("onevcs"),
        text::owned(verb),
        text::owned(branch),
        text::owned("--repo"),
        text::owned(repo),
    ];
    proof {
        assert(views(argv@) =~= seq!["onevcs"@, verb@, branch@, "--repo"@, repo@]);
    }
    guidance::command_of(&argv)
}

/// Each candidate's publication command, quoted in backticks and joined.
pub open spec fn spec_change_request_route(repo: Seq<char>, candidates: Seq<Seq<char>>) -> Seq<
    char,
> {
    spec_join(
        candidates.map_values(|b: Seq<char>| "`"@ + spec_publish_command(b, repo) + "`"@),
        ", "@,
    )
}

/// The exact command that publishes each candidate the train may not land — a
/// routing signpost per candidate, since a refusal that names no command leaves raw
/// `git push` as the way forward.
pub fn change_request_route(repo: &str, candidates: &[String]) -> (out: String)
    ensures
        out@ == spec_change_request_route(repo@, views(candidates@)),
{
    let mut routes: Vec<String> = Vec::new();
    let mut k: usize = 0;
    while k < candidates.len()
        invariant
            k <= candidates@.len(),
            views(routes@) == views(candidates@.take(k as int)).map_values(
                |b: Seq<char>| "`"@ + spec_publish_command(b, repo@) + "`"@,
            ),
        decreases candidates.len() - k,
    {
        let command = branch_command("publish-branch", &candidates[k], repo);
        let quoted = text::concat3("`", &command, "`");
        let ghost before = routes@;
        routes.push(quoted);
        proof {
            assert(views(routes@) =~= views(before).push(quoted@));
            assert(views(candidates@.take(k + 1)) =~= views(candidates@.take(k as int)).push(
                candidates@[k as int]@,
            ));
            assert(views(candidates@.take(k + 1)).map_values(
                |b: Seq<char>| "`"@ + spec_publish_command(b, repo@) + "`"@,
            ) =~= views(candidates@.take(k as int)).map_values(
                |b: Seq<char>| "`"@ + spec_publish_command(b, repo@) + "`"@,
            ).push(quoted@));
        }
        k = k + 1;
    }
    proof {
        assert(candidates@.take(candidates@.len() as int) =~= candidates@);
    }
    text::join(&routes, ", ")
}

/// This same train, for a refusal that asks for it to be run again; `--push` travels
/// with it, so a re-run cannot quietly land the candidates locally only.
pub open spec fn spec_train_command(candidates: Seq<Seq<char>>, push: bool) -> Seq<char> {
    guidance::spec_command(
        seq!["onevcs"@, "integrate"@] + candidates + if push {
            seq!["--push"@]
        } else {
            seq![]
        },
    )
}

/// This same train, as a command.
pub fn train_command(candidates: &[String], push: bool) -> (out: String)
    ensures
        out@ == spec_train_command(views(candidates@), push),
{
    let mut argv = vec![text::owned("onevcs"), text::owned("integrate")];
    let mut k: usize = 0;
    while k < candidates.len()
        invariant
            k <= candidates@.len(),
            views(argv@) == seq!["onevcs"@, "integrate"@] + views(candidates@.take(k as int)),
        decreases candidates.len() - k,
    {
        let ghost before = argv@;
        argv.push(candidates[k].clone());
        proof {
            assert(views(argv@) =~= views(before).push(candidates@[k as int]@));
            assert(views(candidates@.take(k + 1)) =~= views(candidates@.take(k as int)).push(
                candidates@[k as int]@,
            ));
        }
        k = k + 1;
    }
    proof {
        assert(candidates@.take(candidates@.len() as int) =~= candidates@);
    }
    if push {
        let ghost before = argv@;
        argv.push(text::owned("--push"));
        proof {
            assert(views(argv@) =~= views(before).push("--push"@));
        }
    }
    proof {
        assert(views(argv@) =~= seq!["onevcs"@, "integrate"@] + views(candidates@) + if push {
            seq!["--push"@]
        } else {
            seq![]
        });
    }
    guidance::command_of(&argv)
}

// ---------------------------------------------------------------------------
// Admitting a train
// ---------------------------------------------------------------------------

/// What the train knows about its identity and base before it takes its turn.
#[derive(Debug, Clone)]
pub struct Admission {
    /// The identity's registry key.
    pub key: String,
    /// The identity is a team repository.
    pub team: bool,
    /// The identity publishes through a remote workflow.
    pub remote_workflow: bool,
    /// The base checkout.
    pub root: String,
    /// The branch the base checkout is on.
    pub base: String,
    /// Whether the base checkout holds work nobody recorded.
    pub dirty: bool,
}

/// What a refused direct integration is refused as.
pub open spec fn spec_direct_refused(key: Seq<char>, why: Seq<char>, route: Seq<char>) -> Seq<char> {
    "direct integration is refused for identity "@ + text::spec_debug_quoted(key) + " ("@ + why
        + "); publish each branch through its change-request path instead: "@ + route
}

/// Whether a list of texts names one twice.
pub open spec fn spec_has_duplicate(s: Seq<Seq<char>>) -> bool {
    exists|i: int, j: int| 0 <= i < j < s.len() && #[trigger] s[i] == #[trigger] s[j]
}

/// The first candidate, from `from` on, the train refuses to take, with the refusal
/// it is named in: a name git would not accept, the base itself, or a branch the base
/// checkout does not have.
pub open spec fn spec_bad_candidate(
    root: Seq<char>,
    base: Seq<char>,
    candidates: Seq<Seq<char>>,
    valid: Seq<bool>,
    exists: Seq<bool>,
    from: int,
) -> Option<Seq<char>>
    decreases candidates.len() - from,
{
    if from < 0 || from >= candidates.len() {
        None
    } else {
        let branch = candidates[from];
        if !valid[from] {
            Some(
                text::spec_debug_quoted(branch)
                    + " is not a valid branch name; `onevcs recoverable` lists every preserved branch by name and the checkout it is in"@,
            )
        } else if branch == base {
            Some(
                "the base branch "@ + text::spec_debug_quoted(base)
                    + " cannot also be a candidate; re-run `onevcs integrate` naming only the branches to land on it"@,
            )
        } else if !exists[from] {
            Some(
                text::spec_debug_quoted(root) + " has no local branch "@ + text::spec_debug_quoted(
                    branch,
                )
                    + "; `onevcs recoverable` lists this identity's unpublished branches and the checkout each is in"@,
            )
        } else {
            spec_bad_candidate(root, base, candidates, valid, exists, from + 1)
        }
    }
}

/// What offering a branch twice is refused as.
pub const OFFERED_TWICE: &'static str = "a branch is offered to the train twice; re-run `onevcs integrate` naming each branch once, in the order they should land";

/// Take a train in, or refuse it, in the order an operator meets the refusals: a team
/// identity and a remote workflow are routed to their change-request path; a dirty
/// base is refused, since the train would build on work nobody recorded; then each
/// candidate in turn (`valid` and `exists` are git's answers for it); and a branch
/// offered twice.
pub fn admission_check(
    admission: &Admission,
    candidates: &[String],
    valid: &[bool],
    exists: &[bool],
    push: bool,
) -> (r: Result<()>)
    requires
        valid@.len() == candidates@.len(),
        exists@.len() == candidates@.len(),
    ensures
        admission.team ==> r is Err && git::spec_refused(
            r->Err_0,
            spec_direct_refused(
                admission.key@,
                "repo_type: team"@,
                spec_change_request_route(admission.root@, views(candidates@)),
            ),
        ),
        !admission.team && admission.remote_workflow ==> r is Err && git::spec_refused(
            r->Err_0,
            spec_direct_refused(
                admission.key@,
                "workflow: remote"@,
                spec_change_request_route(admission.root@, views(candidates@)),
            ),
        ),
        !admission.team && !admission.remote_workflow && admission.dirty ==> r is Err
            && git::spec_refused(
            r->Err_0,
            "the base worktree "@ + admission.root@
                + " is dirty; the train advances that base and will not build on work nobody recorded. Commit or stash what it holds, then re-run `"@
                + spec_train_command(views(candidates@), push) + "`"@,
        ),
        !admission.team && !admission.remote_workflow && !admission.dirty ==> match spec_bad_candidate(
            admission.root@,
            admission.base@,
            views(candidates@),
            valid@,
            exists@,
            0,
        ) {
            Some(reason) => r is Err && git::spec_refused(r->Err_0, reason),
            None => if spec_has_duplicate(views(candidates@)) {
                r is Err && git::spec_refused(r->Err_0, OFFERED_TWICE@)
            } else {
                r is Ok
            },
        },
{
    if admission.team || admission.remote_workflow {
        let mut reason = text::owned("direct integration is refused for identity ");
        let quoted = text::debug_quoted(&admission.key);
        reason.append(&quoted);
        reason.append(" (");
        reason.append(if admission.team {
                "repo_type: team"
            } else {
                "workflow: remote"
            },
        );
        reason.append("); publish each branch through its change-request path instead: ");
        let route = change_request_route(&admission.root, candidates);
        reason.append(&route);
        return Err(Error::Invalid { reason });
    }
    if admission.dirty {
        let mut reason = text::concat3(
            "the base worktree ",
            &admission.root,
            " is dirty; the train advances that base and will not build on work nobody recorded. Commit or stash what it holds, then re-run `",
        );
        let again = train_command(candidates, push);
        reason.append(&again);
        reason.append("`");
        return Err(Error::Invalid { reason });
    }
    let ghost names = views(candidates@);
    let mut k: usize = 0;
    while k < candidates.len()
        invariant
            !admission.team && !admission.remote_workflow && !admission.dirty,
            k <= candidates@.len(),
            names == views(candidates@),
            valid@.len() == candidates@.len(),
            exists@.len() == candidates@.len(),
            spec_bad_candidate(admission.root@, admission.base@, names, valid@, exists@, 0)
                == spec_bad_candidate(
                admission.root@,
                admission.base@,
                names,
                valid@,
                exists@,
                k as int,
            ),
        decreases candidates.len() - k,
    {
        let branch = &candidates[k];
        if !valid[k] {
            let reason = text::concat(
                &text::debug_quoted(branch),
                " is not a valid branch name; `onevcs recoverable` lists every preserved branch by name and the checkout it is in",
            );
            return Err(Error::Invalid { reason });
        }
        if text::str_eq(branch, &admission.base) {
            let mut reason = text::concat("the base branch ", &text::debug_quoted(&admission.base));
            reason.append(" cannot also be a candidate; re-run `onevcs integrate` naming only the branches to land on it",
            );
            return Err(Error::Invalid { reason });
        }
        if !exists[k] {
            let mut reason = text::concat(&text::debug_quoted(&admission.root), " has no local branch ");
            let quoted = text::debug_quoted(branch);
            reason.append(&quoted);
            reason.append("; `onevcs recoverable` lists this identity's unpublished branches and the checkout each is in",
            );
            return Err(Error::Invalid { reason });
        }
        k = k + 1;
    }
    if has_duplicate(candidates) {
        return Err(Error::Invalid { reason: text::owned(OFFERED_TWICE) });
    }
    Ok(())
}

/// Whether a list of strings names one twice.
pub fn has_duplicate(items: &[String]) -> (b: bool)
    ensures
        b == spec_has_duplicate(views(items@)),
{
    let ghost s = views(items@);
    let mut j: usize = 0;
    while j < items.len()
        invariant
            j <= items@.len(),
            s == views(items@),
            forall|a: int, b: int| 0 <= a < b < j ==> s[a] != s[b],
        decreases items.len() - j,
    {
        let mut i: usize = 0;
        while i < j
            invariant
                i <= j < items@.len(),
                s == views(items@),
                forall|a: int| 0 <= a < i ==> s[a] != s[j as int],
            decreases j - i,
        {
            if text::str_eq(&items[i], &items[j]) {
                proof {
                    assert(s[i as int] == s[j as int]);
                }
                return true;
            }
            i = i + 1;
        }
        j = j + 1;
    }
    false
}

// ---------------------------------------------------------------------------
// One candidate
// ---------------------------------------------------------------------------

/// One fact about a candidate, in the order the train learns them.
#[derive(Debug)]
pub enum Step {
    /// A trailer prefix the branch carries that this host cannot read, if any.
    Unrecognized(Option<String>),
    /// How many of its commits carry an incomplete marker no attestation covers.
    Unattested(usize),
    /// The paths that conflicted merging the remote base in, if any did.
    RemoteMerge(Option<Vec<String>>),
    /// The paths that conflicted merging the local base in, if any did.
    BaseMerge(Option<Vec<String>>),
    /// Whether the branch still reaches the base's head once both merges are in.
    BaseReached(bool),
    /// The subject it would publish under, or why none can be made.
    Subject(core::result::Result<String, String>),
    /// Whether squash-publishing it landed new content on the base.
    Landed(bool),
}

/// Why one fact decides a candidate, as the reason its skip carries; `None` where
/// the fact lets it go on, or lands it.
pub open spec fn spec_skip_reason(branch: Seq<char>, repo: Seq<char>, step: Step) -> Option<Seq<char>> {
    match step {
        Step::Unrecognized(Some(prefix)) => Some(
            "provenance under the trailer prefix "@ + text::spec_debug_quoted(prefix@)
                + ", which this host is not configured to read; set trailer_prefix to "@
                + text::spec_debug_quoted(prefix@) + " in the rules file, then land it with `"@
                + spec_recover_command(branch, repo) + "`"@,
        ),
        Step::Unattested(n) => if n > 0 {
            Some(
                "incomplete provenance ("@ + text::spec_decimal(n as nat)
                    + " unattested commit(s)); this branch belongs to `"@ + spec_recover_command(
                    branch,
                    repo,
                ) + "`"@,
            )
        } else {
            None
        },
        Step::RemoteMerge(Some(paths)) => Some(
            "conflict with the current base in "@ + guidance::spec_listed(views(paths@)),
        ),
        Step::BaseMerge(Some(paths)) => Some(
            "conflict with an earlier candidate in "@ + guidance::spec_listed(views(paths@)),
        ),
        Step::BaseReached(false) => Some(
            "not-ready: the base advanced while this candidate was being built"@,
        ),
        Step::Subject(Err(reason)) => Some(
            reason@ + "; publish it with `"@ + spec_publish_command(branch, repo) + " --title <T>`"@,
        ),
        _ => None,
    }
}

/// A merge that conflicts always settles its candidate as a skip, whichever base it
/// was merging — the remote's or the train's own, which earlier candidates have
/// moved — and the skip names the conflicting paths: a candidate whose tree
/// conflicts is never landed, and the train goes on to the next one.
pub proof fn lemma_a_conflict_skips(branch: Seq<char>, repo: Seq<char>, paths: Vec<String>)
    ensures
        spec_skip_reason(branch, repo, Step::RemoteMerge(Some(paths))) == Some(
            "conflict with the current base in "@ + guidance::spec_listed(views(paths@)),
        ),
        spec_skip_reason(branch, repo, Step::BaseMerge(Some(paths))) == Some(
            "conflict with an earlier candidate in "@ + guidance::spec_listed(views(paths@)),
        ),
        spec_decides(branch, repo, Step::RemoteMerge(Some(paths))),
        spec_decides(branch, repo, Step::BaseMerge(Some(paths))),
{
}

/// The facts that settle a candidate are exactly these: a trailer prefix this host
/// cannot read, any unattested commit, a conflict merging either base, a base that
/// moved under it, a subject that cannot be made, and the landing itself. Every other
/// fact lets the train go on asking.
pub proof fn lemma_what_settles_a_candidate(branch: Seq<char>, repo: Seq<char>, step: Step)
    ensures
        spec_decides(branch, repo, step) <==> match step {
            Step::Unrecognized(prefix) => prefix is Some,
            Step::Unattested(n) => n > 0,
            Step::RemoteMerge(paths) => paths is Some,
            Step::BaseMerge(paths) => paths is Some,
            Step::BaseReached(reached) => !reached,
            Step::Subject(subject) => subject is Err,
            Step::Landed(_) => true,
        },
{
}

/// What one fact settles about a candidate: a skip with its reason, a landing, or
/// nothing yet. Each skip names what would change the answer: the prefix to set,
/// the verb the branch belongs to, what conflicts, or the verb that takes a title.
pub fn one(branch: &str, repo: &str, step: &Step) -> (r: Option<Status>)
    ensures
        match spec_skip_reason(branch@, repo@, *step) {
            Some(reason) => r matches Some(Status::Skipped(s)) && s@ == reason,
            None => match *step {
                Step::Landed(true) => r == Some(Status::Merged),
                Step::Landed(false) => r == Some(Status::AlreadyMerged),
                _ => r is None,
            },
        },
{
    match step {
        Step::Unrecognized(Some(prefix)) => {
            let quoted = text::debug_quoted(prefix);
            let mut reason = text::concat("provenance under the trailer prefix ", &quoted);
            reason.append(", which this host is not configured to read; set trailer_prefix to ",
            );
            reason.append(&quoted);
            reason.append(" in the rules file, then land it with `");
            let recover = branch_command("recover", branch, repo);
            reason.append(&recover);
            reason.append("`");
            Some(Status::Skipped(reason))
        },
        Step::Unrecognized(None) => None,
        Step::Unattested(n) => {
            if *n == 0 {
                return None;
            }
            let count = text::decimal(*n as u64);
            let mut reason = text::concat("incomplete provenance (", &count);
            reason.append(" unattested commit(s)); this branch belongs to `");
            let recover = branch_command("recover", branch, repo);
            reason.append(&recover);
            reason.append("`");
            Some(Status::Skipped(reason))
        },
        Step::RemoteMerge(Some(paths)) => {
            let listed = guidance::listed(paths);
            Some(Status::Skipped(text::concat("conflict with the current base in ", &listed)))
        },
        Step::RemoteMerge(None) => None,
        Step::BaseMerge(Some(paths)) => {
            let listed = guidance::listed(paths);
            Some(Status::Skipped(text::concat("conflict with an earlier candidate in ", &listed)))
        },
        Step::BaseMerge(None) => None,
        Step::BaseReached(reached) => {
            if *reached {
                None
            } else {
                Some(
                    Status::Skipped(
                        text::owned(
                            "not-ready: the base advanced while this candidate was being built",
                        ),
                    ),
                )
            }
        },
        Step::Subject(Err(reason)) => {
            let mut text = reason.clone();
            text.append("; publish it with `");
            let publish = branch_command("publish-branch", branch, repo);
            text.append(&publish);
            text.append(" --title <T>`");
            Some(Status::Skipped(text))
        },
        Step::Subject(Ok(_)) => None,
        Step::Landed(landed) => {
            if *landed {
                Some(Status::Merged)
            } else {
                Some(Status::AlreadyMerged)
            }
        },
    }
}

/// The message a candidate merges the remote base in with.
pub fn remote_merge_message(remote_base: &str, branch: &str) -> (out: String)
    ensures
        out@ == "Merge "@ + remote_base@ + " into "@ + branch@,
{
    let mut out = text::concat3("Merge ", remote_base, " into ");
    out.append(branch);
    out
}

/// The message a candidate merges the train's local base in with.
pub fn base_merge_message(base: &str, branch: &str) -> (out: String)
    ensures
        out@ == "Merge integration train "@ + base@ + " into "@ + branch@,
{
    let mut out = text::concat3("Merge integration train ", base, " into ");
    out.append(branch);
    out
}

// ---------------------------------------------------------------------------
// Ending the train
// ---------------------------------------------------------------------------

/// What a push with nowhere to go is refused as.
pub open spec fn spec_no_origin(root: Seq<char>) -> Seq<char> {
    root
        + " has no origin to push to; the base advanced locally, so re-run `onevcs integrate` without --push, or give the checkout an origin"@
}

/// Whether the advanced base is to be pushed: only when asked and only when it moved;
/// a base with no origin to push to is refused.
pub fn push_wanted(ending: Ending, push: bool, has_remote: bool, root: &str) -> (r: Result<bool>)
    ensures
        !(push && ending != Ending::Unchanged) ==> r == Ok::<bool, Error>(false),
        push && ending != Ending::Unchanged && has_remote ==> r == Ok::<bool, Error>(true),
        push && ending != Ending::Unchanged && !has_remote ==> r is Err && git::spec_refused(
            r->Err_0,
            spec_no_origin(root@),
        ),
{
    if !(push && ending.advanced()) {
        return Ok(false);
    }
    if !has_remote {
        let reason = text::concat(
            root,
            " has no origin to push to; the base advanced locally, so re-run `onevcs integrate` without --push, or give the checkout an origin",
        );
        return Err(Error::Invalid { reason });
    }
    Ok(true)
}

/// The last line of what a push wrote, trimmed, where git gave no per-ref summary.
pub open spec fn spec_last_line(output: Seq<char>) -> Seq<char> {
    let lines = text::spec_lines(output);
    if lines.len() == 0 {
        seq![]
    } else {
        text::spec_trim(lines.last())
    }
}

/// What a push of `base` that git declined is rejected as: git's own refusal, or the
/// last line the push wrote.
pub open spec fn spec_push_rejection(base: Seq<char>, result: Pushed) -> Seq<char> {
    "the push of "@ + text::spec_debug_quoted(base) + " was rejected by the merge path: "@
        + match result {
        Pushed::Refused { output, .. } => match git::spec_refusal(text::spec_lines(output@)) {
            Some(summary) => summary,
            None => spec_last_line(output@),
        },
        _ => seq![],
    }
}

/// Where a pushed train ends: pushed where git accepted it; and where it did not, a
/// rejection carrying git's own refusal, or the last line the push wrote.
pub fn pushed_ending(base: &str, result: &Pushed) -> (r: Result<Ending>)
    ensures
        (*result is Accepted) ==> r == Ok::<Ending, Error>(Ending::AdvancedAndPushed),
        (*result is Refused) ==> r is Err && (r->Err_0 matches Error::PushRejected { reason }
            && reason@ == spec_push_rejection(base@, *result)),
{
    if result.accepted() {
        return Ok(Ending::AdvancedAndPushed);
    }
    let why = match result.refusal() {
        Some(summary) => summary,
        None => {
            let lines = text::lines(result.output());
            if lines.len() == 0 {
                String::new()
            } else {
                text::trim(&lines[lines.len() - 1])
            }
        },
    };
    let mut reason = text::concat("the push of ", &text::debug_quoted(base));
    reason.append(" was rejected by the merge path: ");
    reason.append(&why);
    Err(Error::PushRejected { reason })
}

// ---------------------------------------------------------------------------
// The whole train
// ---------------------------------------------------------------------------

/// Whether a fact settles its candidate, as [`one`] answers it.
pub open spec fn spec_decides(branch: Seq<char>, repo: Seq<char>, step: Step) -> bool {
    spec_skip_reason(branch, repo, step) is Some || step is Landed
}

/// Whether `status` is what a settling fact settles its candidate as.
pub open spec fn spec_settles_as(branch: Seq<char>, repo: Seq<char>, step: Step, status: Status) -> bool {
    match spec_skip_reason(branch, repo, step) {
        Some(reason) => status matches Status::Skipped(s) && s@ == reason,
        None => match step {
            Step::Landed(true) => status == Status::Merged,
            Step::Landed(false) => status == Status::AlreadyMerged,
            _ => false,
        },
    }
}

/// Whether fact `k` is the first that settles its candidate.
pub open spec fn spec_first_decisive_at(branch: Seq<char>, repo: Seq<char>, steps: Seq<Step>, k: int) -> bool {
    &&& 0 <= k < steps.len()
    &&& spec_decides(branch, repo, steps[k])
    &&& forall|j: int| 0 <= j < k ==> !spec_decides(branch, repo, #[trigger] steps[j])
}

/// Whether some fact settles the candidate.
pub open spec fn spec_settled(branch: Seq<char>, repo: Seq<char>, steps: Seq<Step>) -> bool {
    exists|k: int| 0 <= k < steps.len() && spec_decides(branch, repo, #[trigger] steps[k])
}

/// What a candidate's facts settle it as: what the first settling fact says.
pub open spec fn spec_candidate_status(branch: Seq<char>, repo: Seq<char>, steps: Seq<Step>, status: Status) -> bool {
    exists|k: int| spec_first_decisive_at(branch, repo, steps, k) && spec_settles_as(
        branch,
        repo,
        #[trigger] steps[k],
        status,
    )
}

/// One candidate with the facts the train learned about it, in the order it learned
/// them; the train stops learning at the first fact that settles it.
#[derive(Debug)]
pub struct Candidate {
    /// The candidate branch.
    pub branch: String,
    /// What the train learned about it.
    pub steps: Vec<Step>,
}

/// What one candidate's facts settle it as, with the candidate named; nothing where
/// no fact settles it.
pub fn settle(repo: &str, candidate: &Candidate) -> (r: Option<BranchOutcome>)
    ensures
        r is Some <==> spec_settled(candidate.branch@, repo@, candidate.steps@),
        r matches Some(o) ==> o.branch@ == candidate.branch@ && spec_candidate_status(
            candidate.branch@,
            repo@,
            candidate.steps@,
            o.status,
        ),
{
    let branch = &candidate.branch;
    let steps = &candidate.steps;
    let mut k: usize = 0;
    while k < steps.len()
        invariant
            k <= steps@.len(),
            branch == &candidate.branch,
            steps == &candidate.steps,
            forall|j: int| 0 <= j < k ==> !spec_decides(branch@, repo@, #[trigger] steps@[j]),
        decreases steps.len() - k,
    {
        match one(branch, repo, &steps[k]) {
            Some(status) => {
                proof {
                    assert(spec_decides(branch@, repo@, steps@[k as int]));
                    assert(spec_first_decisive_at(branch@, repo@, steps@, k as int));
                    assert(spec_settles_as(branch@, repo@, steps@[k as int], status));
                    assert(spec_settled(branch@, repo@, steps@));
                    assert(spec_candidate_status(branch@, repo@, steps@, status));
                }
                return Some(BranchOutcome { branch: branch.clone(), status });
            },
            None => {},
        }
        k = k + 1;
    }
    None
}

/// Every candidate is settled by its facts.
pub open spec fn spec_all_settled(repo: Seq<char>, candidates: Seq<Candidate>) -> bool {
    forall|i: int| 0 <= i < candidates.len() ==> spec_settled(
        (#[trigger] candidates[i]).branch@,
        repo,
        candidates[i].steps@,
    )
}

/// Whether the train goes on to push: asked to, the base moved, and there is an
/// origin to push to.
pub open spec fn spec_pushes(initial: Seq<char>, now: Seq<char>, push: bool, has_remote: bool) -> bool {
    push && initial != now && has_remote
}

/// The whole train, once its work is done: one outcome per candidate in the order
/// they were offered, each what that candidate's facts settle it as; the base
/// unchanged exactly where its head is the commit it started at (`initial` and
/// `now`); and, where a push was asked for and the base moved, a refusal where there
/// is no origin, the push's own rejection where git declined it (`pushed`), and a
/// pushed base where git took it.
pub fn train(
    base: &str,
    repo: &str,
    candidates: &[Candidate],
    initial: &str,
    now: &str,
    push: bool,
    has_remote: bool,
    root: &str,
    pushed: Option<&Pushed>,
) -> (r: Result<Outcome>)
    requires
        spec_all_settled(repo@, candidates@),
        spec_pushes(initial@, now@, push, has_remote) ==> pushed is Some,
    ensures
        !(push && initial@ != now@) || (has_remote && pushed.unwrap() is Accepted) <==> r is Ok,
        r matches Ok(o) ==> {
            &&& o.base@ == base@
            &&& o.branches@.len() == candidates@.len()
            &&& forall|i: int|
                0 <= i < candidates@.len() ==> (#[trigger] o.branches@[i]).branch@ == candidates@[i].branch@
                    && spec_candidate_status(
                    candidates@[i].branch@,
                    repo@,
                    candidates@[i].steps@,
                    o.branches@[i].status,
                )
            &&& (o.ending == Ending::Unchanged <==> initial@ == now@)
            &&& (o.ending == Ending::AdvancedAndPushed <==> spec_pushes(initial@, now@, push, has_remote))
        },
        push && initial@ != now@ && !has_remote ==> r is Err && git::spec_refused(
            r->Err_0,
            spec_no_origin(root@),
        ),
        spec_pushes(initial@, now@, push, has_remote) && pushed.unwrap() is Refused ==> r is Err
            && (r->Err_0 matches Error::PushRejected { reason } && reason@ == spec_push_rejection(
            base@,
            *pushed.unwrap(),
        )),
{
    let mut branches: Vec<BranchOutcome> = Vec::new();
    let mut i: usize = 0;
    while i < candidates.len()
        invariant
            i <= candidates@.len(),
            spec_all_settled(repo@, candidates@),
            branches@.len() == i,
            forall|j: int|
                0 <= j < i ==> (#[trigger] branches@[j]).branch@ == candidates@[j].branch@
                    && spec_candidate_status(
                    candidates@[j].branch@,
                    repo@,
                    candidates@[j].steps@,
                    branches@[j].status,
                ),
        decreases candidates.len() - i,
    {
        proof {
            assert(spec_settled(candidates@[i as int].branch@, repo@, candidates@[i as int].steps@));
        }
        match settle(repo, &candidates[i]) {
            Some(outcome) => branches.push(outcome),
            None => {},
        }
        i = i + 1;
    }
    let ending = Ending::of(initial, now);
    let goes = push_wanted(ending, push, has_remote, root)?;
    let ending = if goes {
        match pushed {
            Some(result) => pushed_ending(base, result)?,
            None => ending,
        }
    } else {
        ending
    };
    Ok(Outcome { base: text::owned(base), branches, ending })
}

/// The warning said before a train lands anything on an identity whose merge path
/// runs no gate.
pub fn ungated_warning(root: &str) -> (out: String)
    ensures
        out@ == "onevcs: warning: nothing on this identity's merge path runs a gate, so what this train lands is unproven. Install an executable pre-push hook in "@
            + root@ + ", or confirm what covers it with `"@ + guidance::spec_command(
            seq!["onevcs"@, "repos"@, "--audit-gates"@],
        ) + "`"@,
{
    let mut out = text::concat(
        "onevcs: warning: nothing on this identity's merge path runs a gate, so what this train lands is unproven. Install an executable pre-push hook in ",
        root,
    );
    out.append(", or confirm what covers it with `");
    let argv = vec![text::owned("onevcs"), text::owned("repos"), text::owned("--audit-gates")];
    proof {
        assert(views(argv@) =~= seq!["onevcs"@, "repos"@, "--audit-gates"@]);
    }
    let audit = guidance::command_of(&argv);
    out.append(&audit);
    out.append("`");
    out
}

} // verus!
