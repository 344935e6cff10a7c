//! What git is asked and what its answers mean.
//!
//! Every operation shells out to the `git` binary; the process itself is run by the
//! program around this library, under a bound. What stands here is the rest of each
//! operation: the exact argument vector it hands git, and the reading of what git
//! wrote back — which exit status means which answer, which line carries it, and
//! which output is refused as one nothing can be known from.

use vstd::prelude::*;

use crate::error::{Error, Result};
use crate::text::{self, spec_join, spec_lines, spec_trim, views};

verus! {

// ---------------------------------------------------------------------------
// One command's answer
// ---------------------------------------------------------------------------

/// What one git command wrote and how it ended.
#[derive(Debug, Clone)]
pub struct Output {
    /// git's exit status.
    pub status: i32,
    /// git's standard output.
    pub stdout: String,
    /// git's standard error.
    pub stderr: String,
}

/// The placeholder a diagnostic reads as when git wrote nothing at all.
pub const NO_OUTPUT: &'static str = "<no output>";

/// The most specific thing git wrote: its trimmed standard error, else its trimmed
/// standard output, else a placeholder.
pub open spec fn spec_diagnostic(o: Output) -> Seq<char> {
    if spec_trim(o.stderr@).len() > 0 {
        spec_trim(o.stderr@)
    } else if spec_trim(o.stdout@).len() > 0 {
        spec_trim(o.stdout@)
    } else {
        NO_OUTPUT@
    }
}

impl Output {
    /// Whether git reported success.
    pub fn ok(&self) -> (b: bool)
        ensures
            b == (self.status == 0),
    {
        self.status == 0
    }

    /// Standard output with surrounding whitespace removed.
    pub fn trimmed(&self) -> (out: String)
        ensures
            out@ == spec_trim(self.stdout@),
    {
        text::trim(&self.stdout)
    }

    /// Everything the command wrote, porcelain first then diagnostics.
    ///
    /// A pre-push hook runs the repository's whole gate, so this is where a
    /// publication's real verification evidence arrives.
    pub fn combined(&self) -> (out: String)
        ensures
            out@ == self.stdout@ + self.stderr@,
    {
        text::concat(&self.stdout, &self.stderr)
    }

    /// The most specific line git wrote, for a message a human reads.
    pub fn diagnostic(&self) -> (out: String)
        ensures
            out@ == spec_diagnostic(*self),
    {
        let stderr = text::trim(&self.stderr);
        let stdout = text::trim(&self.stdout);
        if !text::is_blank(&stderr) {
            proof {
                lemma_trim_twice(self.stderr@);
            }
            stderr
        } else if !text::is_blank(&stdout) {
            proof {
                lemma_trim_twice(self.stderr@);
                lemma_trim_twice(self.stdout@);
            }
            stdout
        } else {
            proof {
                lemma_trim_twice(self.stderr@);
                lemma_trim_twice(self.stdout@);
            }
            text::owned(NO_OUTPUT)
        }
    }
}

/// Trimmed text trims to nothing exactly when it is empty.
proof fn lemma_trim_twice(s: Seq<char>)
    ensures
        (spec_trim(spec_trim(s)).len() == 0) == (spec_trim(s).len() == 0),
{
    let t = spec_trim(s);
    text::lemma_leading_ws(s);
    text::lemma_trailing_ws(s.skip(text::spec_leading_ws(s) as int));
    text::lemma_leading_ws(t);
    if t.len() > 0 {
        let lead = text::spec_leading_ws(s);
        let rest = s.skip(lead as int);
        text::lemma_trailing_ws(rest);
        assert(t[0] == rest[0]);
        assert(!text::spec_is_whitespace(t[0]));
        assert(text::spec_leading_ws(t) == 0);
        text::lemma_trailing_ws(t);
        assert(t.last() == rest[rest.len() - text::spec_trailing_ws(rest) - 1]);
        assert(text::spec_trailing_ws(t) == 0);
        assert(spec_trim(t) =~= t);
    }
}

// ---------------------------------------------------------------------------
// Which bound a command runs under
// ---------------------------------------------------------------------------

/// Bound, in seconds, on a command that runs no repository hook.
pub const TIMEOUT_ENV: &'static str = "ONEVCS_GIT_TIMEOUT";
/// Bound, in seconds, on a command that runs the repository's own hooks.
pub const HOOK_TIMEOUT_ENV: &'static str = "ONEVCS_GIT_HOOK_TIMEOUT";

/// Which of the two bounds one command runs under — `Hooks` where it runs the
/// repository's own, `Ordinary` where it runs none.
#[derive(Debug, Clone, Copy, PartialEq, Eq, Structural)]
pub enum Bound {
    Ordinary,
    Hooks,
}

impl Bound {
    /// The knob that sets this bound.
    pub fn knob(self) -> (name: &'static str)
        ensures
            name@ == (match self {
                Bound::Ordinary => TIMEOUT_ENV@,
                Bound::Hooks => HOOK_TIMEOUT_ENV@,
            }),
    {
        match self {
            Bound::Ordinary => TIMEOUT_ENV,
            Bound::Hooks => HOOK_TIMEOUT_ENV,
        }
    }

    /// The bound a command with these arguments runs under.
    pub fn of(args: &[String]) -> (b: Bound)
        ensures
            b == (if spec_runs_hooks(views(args@)) {
                Bound::Hooks
            } else {
                Bound::Ordinary
            }),
    {
        if runs_repository_hooks(args) {
            Bound::Hooks
        } else {
            Bound::Ordinary
        }
    }
}

/// The git operations that run a repository's hooks, by their leading words:
/// `clone`, `checkout`, `commit`, `merge`, `push`, `rebase`, and `worktree add`.
pub open spec fn spec_runs_hooks(args: Seq<Seq<char>>) -> bool {
    ||| args.len() >= 1 && (args[0] == "clone"@ || args[0] == "checkout"@ || args[0] == "commit"@
        || args[0] == "merge"@ || args[0] == "push"@ || args[0] == "rebase"@)
    ||| args.len() >= 2 && args[0] == "worktree"@ && args[1] == "add"@
}

/// Whether a command runs the repository's own hooks, and so the longer bound.
pub fn runs_repository_hooks(args: &[String]) -> (b: bool)
    ensures
        b == spec_runs_hooks(views(args@)),
{
    if args.len() == 0 {
        return false;
    }
    let first = &args[0];
    let leading = text::str_eq(first, "clone") || text::str_eq(first, "checkout") || text::str_eq(
        first,
        "commit",
    ) || text::str_eq(first, "merge") || text::str_eq(first, "push") || text::str_eq(
        first,
        "rebase",
    );
    if leading {
        return true;
    }
    args.len() >= 2 && text::str_eq(first, "worktree") && text::str_eq(&args[1], "add")
}

// ---------------------------------------------------------------------------
// Requiring success
// ---------------------------------------------------------------------------

/// What a failed command is refused as: `git <args> failed (exit <status>):
/// <diagnostic>`.
pub open spec fn spec_failed(args: Seq<Seq<char>>, o: Output) -> Seq<char> {
    "git "@ + spec_join(args, " "@) + " failed (exit "@ + text::spec_signed_decimal(o.status as int)
        + "): "@ + spec_diagnostic(o)
}

/// An error that is the refusal `reason`.
pub open spec fn spec_refused(e: Error, reason: Seq<char>) -> bool {
    e matches Error::Invalid { reason: r } && r@ == reason
}

/// A command's answer where git succeeded, and a refusal naming it where it did not.
pub open spec fn spec_checked(args: Seq<Seq<char>>, o: Output, r: Result<Output>) -> bool {
    match r {
        Ok(kept) => o.status == 0 && kept == o,
        Err(e) => o.status != 0 && spec_refused(e, spec_failed(args, o)),
    }
}

/// Turn a non-zero status into an error naming the command.
pub fn checked(args: &[String], output: Output) -> (r: Result<Output>)
    ensures
        spec_checked(views(args@), output, r),
{
    if output.ok() {
        return Ok(output);
    }
    let mut reason = text::owned("git ");
    let joined = text::join(args, " ");
    reason.append(&joined);
    reason.append(" failed (exit ");
    let status = text::signed_decimal(output.status);
    reason.append(&status);
    reason.append("): ");
    let diagnostic = output.diagnostic();
    reason.append(&diagnostic);
    Err(Error::Invalid { reason })
}

// ---------------------------------------------------------------------------
// What each operation asks git
// ---------------------------------------------------------------------------

/// The question whether a repository can reach one commit: `cat-file -e <sha>^{commit}`.
pub open spec fn spec_has_commit_args(sha: Seq<char>) -> Seq<Seq<char>> {
    seq!["cat-file"@, "-e"@, sha + "^{commit}"@]
}

/// The question whether a repository can reach one commit: `cat-file -e <sha>^{commit}`.
pub fn has_commit_args(sha: &str) -> (args: Vec<String>)
    ensures
        views(args@) == spec_has_commit_args(sha@),
{
    let args = vec![text::owned("cat-file"), text::owned("-e"), text::concat(sha, "^{commit}")];
    proof {
        assert(views(args@) =~= spec_has_commit_args(sha@));
    }
    args
}

/// How many commits behind `commit` no ref already holds: `rev-list --count <commit> --not --all`.
pub open spec fn spec_refs_reach_args(commit: Seq<char>) -> Seq<Seq<char>> {
    seq!["rev-list"@, "--count"@, commit, "--not"@, "--all"@]
}

/// How many commits behind `commit` no ref already holds: `rev-list --count <commit> --not --all`.
pub fn refs_reach_args(commit: &str) -> (args: Vec<String>)
    ensures
        views(args@) == spec_refs_reach_args(commit@),
{
    let args = vec![text::owned("rev-list"), text::owned("--count"), text::owned(commit), text::owned("--not"), text::owned("--all")];
    proof {
        assert(views(args@) =~= spec_refs_reach_args(commit@));
    }
    args
}

/// A ref's commit: `rev-parse --verify <ref>^{commit}`.
pub open spec fn spec_tip_args(reference: Seq<char>) -> Seq<Seq<char>> {
    seq!["rev-parse"@, "--verify"@, reference + "^{commit}"@]
}

/// A ref's commit: `rev-parse --verify <ref>^{commit}`.
pub fn tip_args(reference: &str) -> (args: Vec<String>)
    ensures
        views(args@) == spec_tip_args(reference@),
{
    let args = vec![text::owned("rev-parse"), text::owned("--verify"), text::concat(reference, "^{commit}")];
    proof {
        assert(views(args@) =~= spec_tip_args(reference@));
    }
    args
}

/// Whether a path is inside a working tree: `rev-parse --is-inside-work-tree`.
pub open spec fn spec_is_repo_args() -> Seq<Seq<char>> {
    seq!["rev-parse"@, "--is-inside-work-tree"@]
}

/// Whether a path is inside a working tree: `rev-parse --is-inside-work-tree`.
pub fn is_repo_args() -> (args: Vec<String>)
    ensures
        views(args@) == spec_is_repo_args(),
{
    let args = vec![text::owned("rev-parse"), text::owned("--is-inside-work-tree")];
    proof {
        assert(views(args@) =~= spec_is_repo_args());
    }
    args
}

/// The shared git directory of every worktree of a checkout: `rev-parse --git-common-dir`.
pub open spec fn spec_common_dir_args() -> Seq<Seq<char>> {
    seq!["rev-parse"@, "--git-common-dir"@]
}

/// The shared git directory of every worktree of a checkout: `rev-parse --git-common-dir`.
pub fn common_dir_args() -> (args: Vec<String>)
    ensures
        views(args@) == spec_common_dir_args(),
{
    let args = vec![text::owned("rev-parse"), text::owned("--git-common-dir")];
    proof {
        assert(views(args@) =~= spec_common_dir_args());
    }
    args
}

/// The URL configured for a remote: `remote get-url <remote>`.
pub open spec fn spec_remote_url_args(remote: Seq<char>) -> Seq<Seq<char>> {
    seq!["remote"@, "get-url"@, remote]
}

/// The URL configured for a remote: `remote get-url <remote>`.
pub fn remote_url_args(remote: &str) -> (args: Vec<String>)
    ensures
        views(args@) == spec_remote_url_args(remote@),
{
    let args = vec![text::owned("remote"), text::owned("get-url"), text::owned(remote)];
    proof {
        assert(views(args@) =~= spec_remote_url_args(remote@));
    }
    args
}

/// The hooks path a checkout configures: `config --get core.hooksPath`.
pub open spec fn spec_hooks_path_args() -> Seq<Seq<char>> {
    seq!["config"@, "--get"@, "core.hooksPath"@]
}

/// The hooks path a checkout configures: `config --get core.hooksPath`.
pub fn hooks_path_args() -> (args: Vec<String>)
    ensures
        views(args@) == spec_hooks_path_args(),
{
    let args = vec![text::owned("config"), text::owned("--get"), text::owned("core.hooksPath")];
    proof {
        assert(views(args@) =~= spec_hooks_path_args());
    }
    args
}

/// A path git owns for a checkout: `rev-parse --git-path <name>`.
pub open spec fn spec_git_path_args(name: Seq<char>) -> Seq<Seq<char>> {
    seq!["rev-parse"@, "--git-path"@, name]
}

/// A path git owns for a checkout: `rev-parse --git-path <name>`.
pub fn git_path_args(name: &str) -> (args: Vec<String>)
    ensures
        views(args@) == spec_git_path_args(name@),
{
    let args = vec![text::owned("rev-parse"), text::owned("--git-path"), text::owned(name)];
    proof {
        assert(views(args@) =~= spec_git_path_args(name@));
    }
    args
}

/// Update remote-tracking refs, pruning what the remote no longer has: `fetch <remote> --prune`.
pub open spec fn spec_fetch(remote: Seq<char>) -> Seq<Seq<char>> {
    seq!["fetch"@, remote, "--prune"@]
}

/// Update remote-tracking refs, pruning what the remote no longer has: `fetch <remote> --prune`.
pub fn fetch(remote: &str) -> (args: Vec<String>)
    ensures
        views(args@) == spec_fetch(remote@),
{
    let args = vec![text::owned("fetch"), text::owned(remote), text::owned("--prune")];
    proof {
        assert(views(args@) =~= spec_fetch(remote@));
    }
    args
}

/// The branch `<remote>/HEAD` names: `symbolic-ref --short refs/remotes/<remote>/HEAD`.
pub open spec fn spec_tracked_head_args(remote: Seq<char>) -> Seq<Seq<char>> {
    seq!["symbolic-ref"@, "--short"@, "refs/remotes/"@ + remote + "/HEAD"@]
}

/// The branch `<remote>/HEAD` names: `symbolic-ref --short refs/remotes/<remote>/HEAD`.
pub fn tracked_head_args(remote: &str) -> (args: Vec<String>)
    ensures
        views(args@) == spec_tracked_head_args(remote@),
{
    let args = vec![text::owned("symbolic-ref"), text::owned("--short"), text::concat3("refs/remotes/", remote, "/HEAD")];
    proof {
        assert(views(args@) =~= spec_tracked_head_args(remote@));
    }
    args
}

/// What the remote itself says its HEAD is: `ls-remote --symref <remote> HEAD`.
pub open spec fn spec_advertised_head_args(remote: Seq<char>) -> Seq<Seq<char>> {
    seq!["ls-remote"@, "--symref"@, remote, "HEAD"@]
}

/// What the remote itself says its HEAD is: `ls-remote --symref <remote> HEAD`.
pub fn advertised_head_args(remote: &str) -> (args: Vec<String>)
    ensures
        views(args@) == spec_advertised_head_args(remote@),
{
    let args = vec![text::owned("ls-remote"), text::owned("--symref"), text::owned(remote), text::owned("HEAD")];
    proof {
        assert(views(args@) =~= spec_advertised_head_args(remote@));
    }
    args
}

/// The remote-tracking branches of one remote: `for-each-ref --format=%(refname:strip=3) refs/remotes/<remote>`.
pub open spec fn spec_candidates_args(remote: Seq<char>) -> Seq<Seq<char>> {
    seq!["for-each-ref"@, "--format=%(refname:strip=3)"@, "refs/remotes/"@ + remote]
}

/// The remote-tracking branches of one remote: `for-each-ref --format=%(refname:strip=3) refs/remotes/<remote>`.
pub fn candidates_args(remote: &str) -> (args: Vec<String>)
    ensures
        views(args@) == spec_candidates_args(remote@),
{
    let args = vec![text::owned("for-each-ref"), text::owned("--format=%(refname:strip=3)"), text::concat("refs/remotes/", remote)];
    proof {
        assert(views(args@) =~= spec_candidates_args(remote@));
    }
    args
}

/// The branch HEAD names, quietly: `symbolic-ref --quiet --short HEAD`.
pub open spec fn spec_current_head_args() -> Seq<Seq<char>> {
    seq!["symbolic-ref"@, "--quiet"@, "--short"@, "HEAD"@]
}

/// The branch HEAD names, quietly: `symbolic-ref --quiet --short HEAD`.
pub fn current_head_args() -> (args: Vec<String>)
    ensures
        views(args@) == spec_current_head_args(),
{
    let args = vec![text::owned("symbolic-ref"), text::owned("--quiet"), text::owned("--short"), text::owned("HEAD")];
    proof {
        assert(views(args@) =~= spec_current_head_args());
    }
    args
}

/// Whether a fully spelled ref exists: `show-ref --verify --quiet <ref>`.
pub open spec fn spec_ref_exists_args(reference: Seq<char>) -> Seq<Seq<char>> {
    seq!["show-ref"@, "--verify"@, "--quiet"@, reference]
}

/// Whether a fully spelled ref exists: `show-ref --verify --quiet <ref>`.
pub fn ref_exists_args(reference: &str) -> (args: Vec<String>)
    ensures
        views(args@) == spec_ref_exists_args(reference@),
{
    let args = vec![text::owned("show-ref"), text::owned("--verify"), text::owned("--quiet"), text::owned(reference)];
    proof {
        assert(views(args@) =~= spec_ref_exists_args(reference@));
    }
    args
}

/// Whether a local branch exists: the ref check on `refs/heads/<branch>`.
pub open spec fn spec_branch_exists_args(branch: Seq<char>) -> Seq<Seq<char>> {
    seq!["show-ref"@, "--verify"@, "--quiet"@, "refs/heads/"@ + branch]
}

/// Whether a local branch exists: the ref check on `refs/heads/<branch>`.
pub fn branch_exists_args(branch: &str) -> (args: Vec<String>)
    ensures
        views(args@) == spec_branch_exists_args(branch@),
{
    let args = vec![text::owned("show-ref"), text::owned("--verify"), text::owned("--quiet"), text::concat("refs/heads/", branch)];
    proof {
        assert(views(args@) =~= spec_branch_exists_args(branch@));
    }
    args
}

/// The current HEAD commit: `rev-parse HEAD`.
pub open spec fn spec_head_sha_args() -> Seq<Seq<char>> {
    seq!["rev-parse"@, "HEAD"@]
}

/// The current HEAD commit: `rev-parse HEAD`.
pub fn head_sha_args() -> (args: Vec<String>)
    ensures
        views(args@) == spec_head_sha_args(),
{
    let args = vec![text::owned("rev-parse"), text::owned("HEAD")];
    proof {
        assert(views(args@) =~= spec_head_sha_args());
    }
    args
}

/// Point HEAD at the commit it already stands on, touching no file: `update-ref --no-deref HEAD <head>`.
pub open spec fn spec_detach_head(head: Seq<char>) -> Seq<Seq<char>> {
    seq!["update-ref"@, "--no-deref"@, "HEAD"@, head]
}

/// Point HEAD at the commit it already stands on, touching no file: `update-ref --no-deref HEAD <head>`.
pub fn detach_head(head: &str) -> (args: Vec<String>)
    ensures
        views(args@) == spec_detach_head(head@),
{
    let args = vec![text::owned("update-ref"), text::owned("--no-deref"), text::owned("HEAD"), text::owned(head)];
    proof {
        assert(views(args@) =~= spec_detach_head(head@));
    }
    args
}

/// The checked-out branch, or `HEAD` when detached: `rev-parse --abbrev-ref HEAD`.
pub open spec fn spec_current_branch_args() -> Seq<Seq<char>> {
    seq!["rev-parse"@, "--abbrev-ref"@, "HEAD"@]
}

/// The checked-out branch, or `HEAD` when detached: `rev-parse --abbrev-ref HEAD`.
pub fn current_branch_args() -> (args: Vec<String>)
    ensures
        views(args@) == spec_current_branch_args(),
{
    let args = vec![text::owned("rev-parse"), text::owned("--abbrev-ref"), text::owned("HEAD")];
    proof {
        assert(views(args@) =~= spec_current_branch_args());
    }
    args
}

/// When a commit was committed: `show -s --format=%cI <commit>^{commit}`.
pub open spec fn spec_committer_date_args(commit: Seq<char>) -> Seq<Seq<char>> {
    seq!["show"@, "-s"@, "--format=%cI"@, commit + "^{commit}"@]
}

/// When a commit was committed: `show -s --format=%cI <commit>^{commit}`.
pub fn committer_date_args(commit: &str) -> (args: Vec<String>)
    ensures
        views(args@) == spec_committer_date_args(commit@),
{
    let args = vec![text::owned("show"), text::owned("-s"), text::owned("--format=%cI"), text::concat(commit, "^{commit}")];
    proof {
        assert(views(args@) =~= spec_committer_date_args(commit@));
    }
    args
}

/// Local branch names: `for-each-ref --format=%(refname:short) refs/heads`.
pub open spec fn spec_branches_args() -> Seq<Seq<char>> {
    seq!["for-each-ref"@, "--format=%(refname:short)"@, "refs/heads"@]
}

/// Local branch names: `for-each-ref --format=%(refname:short) refs/heads`.
pub fn branches_args() -> (args: Vec<String>)
    ensures
        views(args@) == spec_branches_args(),
{
    let args = vec![text::owned("for-each-ref"), text::owned("--format=%(refname:short)"), text::owned("refs/heads")];
    proof {
        assert(views(args@) =~= spec_branches_args());
    }
    args
}

/// Whether git accepts a branch name: `check-ref-format refs/heads/<branch>`.
pub open spec fn spec_is_valid_branch_name_args(branch: Seq<char>) -> Seq<Seq<char>> {
    seq!["check-ref-format"@, "refs/heads/"@ + branch]
}

/// Whether git accepts a branch name: `check-ref-format refs/heads/<branch>`.
pub fn is_valid_branch_name_args(branch: &str) -> (args: Vec<String>)
    ensures
        views(args@) == spec_is_valid_branch_name_args(branch@),
{
    let args = vec![text::owned("check-ref-format"), text::concat("refs/heads/", branch)];
    proof {
        assert(views(args@) =~= spec_is_valid_branch_name_args(branch@));
    }
    args
}

/// What the worktree has changed: `status --porcelain`.
pub open spec fn spec_is_dirty_args() -> Seq<Seq<char>> {
    seq!["status"@, "--porcelain"@]
}

/// What the worktree has changed: `status --porcelain`.
pub fn is_dirty_args() -> (args: Vec<String>)
    ensures
        views(args@) == spec_is_dirty_args(),
{
    let args = vec![text::owned("status"), text::owned("--porcelain")];
    proof {
        assert(views(args@) =~= spec_is_dirty_args());
    }
    args
}

/// Stage everything in the worktree: `add -A`.
pub open spec fn spec_add_all() -> Seq<Seq<char>> {
    seq!["add"@, "-A"@]
}

/// Stage everything in the worktree: `add -A`.
pub fn add_all() -> (args: Vec<String>)
    ensures
        views(args@) == spec_add_all(),
{
    let args = vec![text::owned("add"), text::owned("-A")];
    proof {
        assert(views(args@) =~= spec_add_all());
    }
    args
}

/// Commit the staged tree: `commit -m <message>`.
pub open spec fn spec_commit(message: Seq<char>) -> Seq<Seq<char>> {
    seq!["commit"@, "-m"@, message]
}

/// Commit the staged tree: `commit -m <message>`.
pub fn commit(message: &str) -> (args: Vec<String>)
    ensures
        views(args@) == spec_commit(message@),
{
    let args = vec![text::owned("commit"), text::owned("-m"), text::owned(message)];
    proof {
        assert(views(args@) =~= spec_commit(message@));
    }
    args
}

/// Create a metadata-only commit: `commit --allow-empty -m <message>`.
pub open spec fn spec_commit_empty(message: Seq<char>) -> Seq<Seq<char>> {
    seq!["commit"@, "--allow-empty"@, "-m"@, message]
}

/// Create a metadata-only commit: `commit --allow-empty -m <message>`.
pub fn commit_empty(message: &str) -> (args: Vec<String>)
    ensures
        views(args@) == spec_commit_empty(message@),
{
    let args = vec![text::owned("commit"), text::owned("--allow-empty"), text::owned("-m"), text::owned(message)];
    proof {
        assert(views(args@) =~= spec_commit_empty(message@));
    }
    args
}


// ---------------------------------------------------------------------------
// Reading what git answered
// ---------------------------------------------------------------------------

/// Whether a command ran and git reported success.
pub open spec fn spec_succeeded(ran: Option<&Output>) -> bool {
    match ran {
        Some(o) => o.status == 0,
        None => false,
    }
}

/// The trimmed standard output of a command that ran and succeeded.
pub open spec fn spec_answer(ran: Option<&Output>) -> Seq<char> {
    match ran {
        Some(o) => spec_trim(o.stdout@),
        None => seq![],
    }
}

fn succeeded(ran: Option<&Output>) -> (b: bool)
    ensures
        b == spec_succeeded(ran),
{
    match ran {
        Some(o) => o.ok(),
        None => false,
    }
}

/// Whether a repository can reach one commit, through its own object store or one it
/// borrows: the answer to [`has_commit_args`]. A command that could not be run is
/// `false`.
pub fn has_commit(ran: Option<&Output>) -> (b: bool)
    ensures
        b == spec_succeeded(ran),
{
    succeeded(ran)
}

/// Whether some ref already reaches a commit with the whole history behind it: the
/// answer to [`refs_reach_args`] is a count of exactly `0`. A repository git could not
/// be asked answers `false`, because "no answer" must never read as "safe".
pub fn refs_reach(ran: Option<&Output>) -> (b: bool)
    ensures
        b == (spec_succeeded(ran) && spec_answer(ran)
            == "0"@),
{
    match ran {
        Some(o) => {
            if !o.ok() {
                return false;
            }
            let answer = o.trimmed();
            text::str_eq(&answer, "0")
        },
        None => false,
    }
}

/// A ref's commit, or `None` when the repository does not have it: the answer to
/// [`tip_args`].
pub fn tip(ran: Option<&Output>) -> (r: Option<String>)
    ensures
        match r {
            Some(t) => spec_succeeded(ran) && t@ == spec_answer(
                ran,
            ),
            None => !spec_succeeded(ran),
        },
{
    match ran {
        Some(o) => {
            if o.ok() {
                Some(o.trimmed())
            } else {
                None
            }
        },
        None => None,
    }
}

/// Whether a path is inside the working tree of a non-bare repository: git answered
/// `true` to [`is_repo_args`].
pub fn is_repo(ran: Option<&Output>) -> (b: bool)
    ensures
        b == (spec_succeeded(ran) && spec_answer(ran)
            == "true"@),
{
    match ran {
        Some(o) => o.ok() && text::str_eq(&o.trimmed(), "true"),
        None => false,
    }
}

/// A path git printed, read from the directory it was asked in: an absolute answer as
/// it stands, a relative one joined onto `cwd`.
pub open spec fn spec_located(cwd: Seq<char>, printed: Seq<char>) -> Seq<char> {
    crate::home::spec_path_join(cwd, spec_trim(printed))
}

/// A located path where git succeeded, the refusal naming `args` where it did not.
pub open spec fn spec_located_answer(
    cwd: Seq<char>,
    args: Seq<Seq<char>>,
    o: Output,
    r: Result<String>,
) -> bool {
    match r {
        Ok(path) => o.status == 0 && path@ == spec_located(cwd, o.stdout@),
        Err(e) => o.status != 0 && spec_refused(e, spec_failed(args, o)),
    }
}

fn located(cwd: &str, args: &[String], answer: Output) -> (r: Result<String>)
    ensures
        spec_located_answer(cwd@, views(args@), answer, r),
{
    let kept = checked(args, answer)?;
    let value = kept.trimmed();
    Ok(crate::home::path_join(cwd, &value))
}

/// The shared git directory every linked worktree of a checkout resolves to, before
/// the filesystem canonicalises it: the answer to [`common_dir_args`] asked in `cwd`.
pub fn common_dir(cwd: &str, answer: Output) -> (r: Result<String>)
    ensures
        spec_located_answer(cwd@, spec_common_dir_args(), answer, r),
{
    let args = common_dir_args();
    located(cwd, &args, answer)
}

/// The object store a checkout keeps its own history in: the answer to
/// `git_path_args("objects")` asked in `cwd`.
pub fn objects_dir(cwd: &str, answer: Output) -> (r: Result<String>)
    ensures
        spec_located_answer(cwd@, spec_git_path_args("objects"@), answer, r),
{
    let args = git_path_args("objects");
    located(cwd, &args, answer)
}

/// Git's effective hooks directory for a checkout, honouring `core.hooksPath`: the
/// answer to `git_path_args("hooks")` asked in `cwd`.
pub fn hooks_dir(cwd: &str, answer: Output) -> (r: Result<String>)
    ensures
        spec_located_answer(cwd@, spec_git_path_args("hooks"@), answer, r),
{
    let args = git_path_args("hooks");
    located(cwd, &args, answer)
}

/// What an unusable remote URL is refused as.
pub open spec fn spec_unusable_url(remote: Seq<char>) -> Seq<char> {
    "git remote "@ + text::spec_debug_quoted(remote) + " returned an unusable URL"@
}

/// The URL configured for a remote: the answer to [`remote_url_args`], refused where
/// git failed, where it is empty, or where it spans more than one line.
pub fn remote_url(remote: &str, answer: Output) -> (r: Result<String>)
    ensures
        match r {
            Ok(url) => answer.status == 0 && url@ == spec_trim(answer.stdout@) && url@.len() > 0
                && !text::spec_has_char(url@, '\n') && !text::spec_has_char(url@, '\r'),
            Err(e) => if answer.status != 0 {
                spec_refused(e, spec_failed(spec_remote_url_args(remote@), answer))
            } else {
                spec_refused(e, spec_unusable_url(remote@))
            },
        },
{
    let args = remote_url_args(remote);
    let kept = checked(&args, answer)?;
    let value = kept.trimmed();
    if text::is_blank(&value) || text::has_char(&value, '\n') || text::has_char(&value, '\r') {
        proof {
            if spec_trim(value@).len() == 0 {
                lemma_trim_twice(kept.stdout@);
            }
        }
        let mut reason = text::owned("git remote ");
        let quoted = text::debug_quoted(remote);
        reason.append(&quoted);
        reason.append(" returned an unusable URL");
        return Err(Error::Invalid { reason });
    }
    proof {
        lemma_trim_twice(kept.stdout@);
    }
    Ok(value)
}

/// Whether a remote is configured at all: [`remote_url_args`] succeeded.
pub fn has_remote(ran: Option<&Output>) -> (b: bool)
    ensures
        b == spec_succeeded(ran),
{
    succeeded(ran)
}

/// The ref exists: [`ref_exists_args`] succeeded.
pub fn ref_exists(ran: Option<&Output>) -> (b: bool)
    ensures
        b == spec_succeeded(ran),
{
    succeeded(ran)
}

/// A trimmed answer where git succeeded, the refusal naming `args` where it did not.
pub open spec fn spec_trimmed_answer(args: Seq<Seq<char>>, o: Output, r: Result<String>) -> bool {
    match r {
        Ok(value) => o.status == 0 && value@ == spec_trim(o.stdout@),
        Err(e) => o.status != 0 && spec_refused(e, spec_failed(args, o)),
    }
}

/// The current HEAD commit: the answer to [`head_sha_args`].
pub fn head_sha(answer: Output) -> (r: Result<String>)
    ensures
        spec_trimmed_answer(spec_head_sha_args(), answer, r),
{
    let args = head_sha_args();
    Ok(checked(&args, answer)?.trimmed())
}

/// The checked-out branch, or `HEAD` when the worktree is detached: the answer to
/// [`current_branch_args`].
pub fn current_branch(answer: Output) -> (r: Result<String>)
    ensures
        spec_trimmed_answer(spec_current_branch_args(), answer, r),
{
    let args = current_branch_args();
    Ok(checked(&args, answer)?.trimmed())
}

/// When a commit was committed, or `None` where the repository does not hold it: the
/// answer to [`committer_date_args`], where it succeeded with something to say.
pub fn committer_date(ran: Option<&Output>) -> (r: Option<String>)
    ensures
        match r {
            Some(date) => spec_succeeded(ran) && date@ == spec_answer(
                ran,
            ) && date@.len() > 0,
            None => !spec_succeeded(ran) || spec_answer(
                ran,
            ).len() == 0,
        },
{
    match ran {
        Some(o) => {
            if !o.ok() {
                return None;
            }
            let date = o.trimmed();
            if text::chars_of(&date).len() == 0 {
                None
            } else {
                Some(date)
            }
        },
        None => None,
    }
}

/// The lines of a listing that are not empty, in order.
pub open spec fn spec_nonempty_lines(s: Seq<char>) -> Seq<Seq<char>> {
    spec_lines(s).filter(|line: Seq<char>| line.len() > 0)
}

/// Every line of `lines[..k]` that is not empty.
fn nonempty(lines: &Vec<String>) -> (out: Vec<String>)
    ensures
        views(out@) == views(lines@).filter(|line: Seq<char>| line.len() > 0),
{
    let mut out: Vec<String> = Vec::new();
    let mut k: usize = 0;
    while k < lines.len()
        invariant
            k <= lines@.len(),
            views(out@) == views(lines@.take(k as int)).filter(|line: Seq<char>| line.len() > 0),
        decreases lines.len() - k,
    {
        proof {
            assert(views(lines@.take(k + 1)) =~= views(lines@.take(k as int)).push(lines@[k as int]@));
            views(lines@.take(k as int)).lemma_filter_push(
                lines@[k as int]@,
                |line: Seq<char>| line.len() > 0,
            );
        }
        let line = &lines[k];
        if text::chars_of(line).len() > 0 {
            out.push(line.clone());
            proof {
                assert(views(out@) =~= views(out@.drop_last()).push(line@));
            }
        }
        k = k + 1;
    }
    proof {
        assert(lines@.take(lines@.len() as int) =~= lines@);
    }
    out
}

/// Local branch names, in git's deterministic ref order: the non-empty lines of the
/// answer to [`branches_args`].
pub fn branches(answer: Output) -> (r: Result<Vec<String>>)
    ensures
        match r {
            Ok(names) => answer.status == 0 && views(names@) == spec_nonempty_lines(
                answer.stdout@,
            ),
            Err(e) => answer.status != 0 && spec_refused(
                e,
                spec_failed(spec_branches_args(), answer),
            ),
        },
{
    let args = branches_args();
    let kept = checked(&args, answer)?;
    let lines = text::lines(&kept.stdout);
    Ok(nonempty(&lines))
}

/// Whether git accepts a name as a branch: not empty, not an option, and passed by
/// [`is_valid_branch_name_args`].
pub fn is_valid_branch_name(branch: &str, ran: Option<&Output>) -> (b: bool)
    ensures
        b == (branch@.len() > 0 && branch@[0] != '-' && spec_succeeded(
            ran,
        )),
{
    let chars = text::chars_of(branch);
    if chars.len() == 0 || chars[0] == '-' {
        return false;
    }
    succeeded(ran)
}

/// Whether the worktree has staged or unstaged changes: the answer to
/// [`is_dirty_args`] is not blank.
pub fn is_dirty(answer: Output) -> (r: Result<bool>)
    ensures
        match r {
            Ok(dirty) => answer.status == 0 && dirty == (spec_trim(answer.stdout@).len() > 0),
            Err(e) => answer.status != 0 && spec_refused(
                e,
                spec_failed(spec_is_dirty_args(), answer),
            ),
        },
{
    let args = is_dirty_args();
    let kept = checked(&args, answer)?;
    let listed = kept.trimmed();
    Ok(text::chars_of(&listed).len() > 0)
}

/// Full commit messages in `branch` but not `base`, oldest first, each record a SHA, a NUL, the message, a NUL, and a record separator.
pub open spec fn spec_log_messages_args(base: Seq<char>, branch: Seq<char>) -> Seq<Seq<char>> {
    seq!["log"@, "--reverse"@, "--format=%H%x00%B%x00%x1e"@, base + ".."@ + branch]
}

/// Full commit messages in `branch` but not `base`, oldest first, each record a SHA, a NUL, the message, a NUL, and a record separator.
pub fn log_messages_args(base: &str, branch: &str) -> (args: Vec<String>)
    ensures
        views(args@) == spec_log_messages_args(base@, branch@),
{
    let args = vec![text::owned("log"), text::owned("--reverse"), text::owned("--format=%H%x00%B%x00%x1e"), text::concat3(base, "..", branch)];
    proof {
        assert(views(args@) =~= spec_log_messages_args(base@, branch@));
    }
    args
}

/// Whether two refs' trees differ at all: `diff --quiet <base> <branch>`.
pub open spec fn spec_trees_differ_args(base: Seq<char>, branch: Seq<char>) -> Seq<Seq<char>> {
    seq!["diff"@, "--quiet"@, base, branch]
}

/// Whether two refs' trees differ at all: `diff --quiet <base> <branch>`.
pub fn trees_differ_args(base: &str, branch: &str) -> (args: Vec<String>)
    ensures
        views(args@) == spec_trees_differ_args(base@, branch@),
{
    let args = vec![text::owned("diff"), text::owned("--quiet"), text::owned(base), text::owned(branch)];
    proof {
        assert(views(args@) =~= spec_trees_differ_args(base@, branch@));
    }
    args
}

/// The lines two commits differ by, as tab-separated counts: `diff --numstat --no-renames <from> <to>`.
pub open spec fn spec_line_change_args(from: Seq<char>, to: Seq<char>) -> Seq<Seq<char>> {
    seq!["diff"@, "--numstat"@, "--no-renames"@, from, to]
}

/// The lines two commits differ by, as tab-separated counts: `diff --numstat --no-renames <from> <to>`.
pub fn line_change_args(from: &str, to: &str) -> (args: Vec<String>)
    ensures
        views(args@) == spec_line_change_args(from@, to@),
{
    let args = vec![text::owned("diff"), text::owned("--numstat"), text::owned("--no-renames"), text::owned(from), text::owned(to)];
    proof {
        assert(views(args@) =~= spec_line_change_args(from@, to@));
    }
    args
}

/// What one commit records — tree, parents, commit date, subject — NUL-separated.
pub open spec fn spec_shape_of_args(reference: Seq<char>) -> Seq<Seq<char>> {
    seq!["log"@, "-1"@, "--format=%T%x00%P%x00%cI%x00%s"@, reference]
}

/// What one commit records — tree, parents, commit date, subject — NUL-separated.
pub fn shape_of_args(reference: &str) -> (args: Vec<String>)
    ensures
        views(args@) == spec_shape_of_args(reference@),
{
    let args = vec![text::owned("log"), text::owned("-1"), text::owned("--format=%T%x00%P%x00%cI%x00%s"), text::owned(reference)];
    proof {
        assert(views(args@) =~= spec_shape_of_args(reference@));
    }
    args
}

/// Whether `ancestor` is reachable from `descendant`: `merge-base --is-ancestor`.
pub open spec fn spec_is_ancestor_args(ancestor: Seq<char>, descendant: Seq<char>) -> Seq<Seq<char>> {
    seq!["merge-base"@, "--is-ancestor"@, ancestor, descendant]
}

/// Whether `ancestor` is reachable from `descendant`: `merge-base --is-ancestor`.
pub fn is_ancestor_args(ancestor: &str, descendant: &str) -> (args: Vec<String>)
    ensures
        views(args@) == spec_is_ancestor_args(ancestor@, descendant@),
{
    let args = vec![text::owned("merge-base"), text::owned("--is-ancestor"), text::owned(ancestor), text::owned(descendant)];
    proof {
        assert(views(args@) =~= spec_is_ancestor_args(ancestor@, descendant@));
    }
    args
}

/// The commit two refs last had in common: `merge-base <first> <second>`.
pub open spec fn spec_merge_base_args(first: Seq<char>, second: Seq<char>) -> Seq<Seq<char>> {
    seq!["merge-base"@, first, second]
}

/// The commit two refs last had in common: `merge-base <first> <second>`.
pub fn merge_base_args(first: &str, second: &str) -> (args: Vec<String>)
    ensures
        views(args@) == spec_merge_base_args(first@, second@),
{
    let args = vec![text::owned("merge-base"), text::owned(first), text::owned(second)];
    proof {
        assert(views(args@) =~= spec_merge_base_args(first@, second@));
    }
    args
}

/// How many files two commits differ in, as git's ASCII summary: `diff --shortstat --no-renames`.
pub open spec fn spec_counted_files_args(from: Seq<char>, to: Seq<char>) -> Seq<Seq<char>> {
    seq!["diff"@, "--shortstat"@, "--no-renames"@, from, to]
}

/// How many files two commits differ in, as git's ASCII summary: `diff --shortstat --no-renames`.
pub fn counted_files_args(from: &str, to: &str) -> (args: Vec<String>)
    ensures
        views(args@) == spec_counted_files_args(from@, to@),
{
    let args = vec![text::owned("diff"), text::owned("--shortstat"), text::owned("--no-renames"), text::owned(from), text::owned(to)];
    proof {
        assert(views(args@) =~= spec_counted_files_args(from@, to@));
    }
    args
}

/// Every path a commit changed since its fork, NUL-separated: `diff --name-only --no-renames -z`.
pub open spec fn spec_touched_args(fork: Seq<char>, commit: Seq<char>) -> Seq<Seq<char>> {
    seq!["diff"@, "--name-only"@, "--no-renames"@, "-z"@, fork, commit]
}

/// Every path a commit changed since its fork, NUL-separated: `diff --name-only --no-renames -z`.
pub fn touched_args(fork: &str, commit: &str) -> (args: Vec<String>)
    ensures
        views(args@) == spec_touched_args(fork@, commit@),
{
    let args = vec![text::owned("diff"), text::owned("--name-only"), text::owned("--no-renames"), text::owned("-z"), text::owned(fork), text::owned(commit)];
    proof {
        assert(views(args@) =~= spec_touched_args(fork@, commit@));
    }
    args
}

/// The paths git left unmerged, NUL-separated: `diff --name-only -z --diff-filter=U`.
pub open spec fn spec_unmerged_args() -> Seq<Seq<char>> {
    seq!["diff"@, "--name-only"@, "-z"@, "--diff-filter=U"@]
}

/// The paths git left unmerged, NUL-separated: `diff --name-only -z --diff-filter=U`.
pub fn unmerged_args() -> (args: Vec<String>)
    ensures
        views(args@) == spec_unmerged_args(),
{
    let args = vec![text::owned("diff"), text::owned("--name-only"), text::owned("-z"), text::owned("--diff-filter=U")];
    proof {
        assert(views(args@) =~= spec_unmerged_args());
    }
    args
}

/// The conflicting hunks as git renders them: `diff --diff-filter=U`.
pub open spec fn spec_hunks_args() -> Seq<Seq<char>> {
    seq!["diff"@, "--diff-filter=U"@]
}

/// The conflicting hunks as git renders them: `diff --diff-filter=U`.
pub fn hunks_args() -> (args: Vec<String>)
    ensures
        views(args@) == spec_hunks_args(),
{
    let args = vec![text::owned("diff"), text::owned("--diff-filter=U")];
    proof {
        assert(views(args@) =~= spec_hunks_args());
    }
    args
}

/// Replay `branch`'s commits after `upstream` onto `onto`: `rebase --onto <onto> <upstream> <branch>`.
pub open spec fn spec_rebase_onto_args(onto: Seq<char>, upstream: Seq<char>, branch: Seq<char>) -> Seq<Seq<char>> {
    seq!["rebase"@, "--onto"@, onto, upstream, branch]
}

/// Replay `branch`'s commits after `upstream` onto `onto`: `rebase --onto <onto> <upstream> <branch>`.
pub fn rebase_onto_args(onto: &str, upstream: &str, branch: &str) -> (args: Vec<String>)
    ensures
        views(args@) == spec_rebase_onto_args(onto@, upstream@, branch@),
{
    let args = vec![text::owned("rebase"), text::owned("--onto"), text::owned(onto), text::owned(upstream), text::owned(branch)];
    proof {
        assert(views(args@) =~= spec_rebase_onto_args(onto@, upstream@, branch@));
    }
    args
}

/// Leave a halted replay as it was found: `rebase --abort`.
pub open spec fn spec_rebase_abort() -> Seq<Seq<char>> {
    seq!["rebase"@, "--abort"@]
}

/// Leave a halted replay as it was found: `rebase --abort`.
pub fn rebase_abort() -> (args: Vec<String>)
    ensures
        views(args@) == spec_rebase_abort(),
{
    let args = vec![text::owned("rebase"), text::owned("--abort")];
    proof {
        assert(views(args@) =~= spec_rebase_abort());
    }
    args
}

/// When a ref's commit was made, in seconds since the epoch: `log -1 --format=%ct`.
pub open spec fn spec_committed_at_args(reference: Seq<char>) -> Seq<Seq<char>> {
    seq!["log"@, "-1"@, "--format=%ct"@, reference]
}

/// When a ref's commit was made, in seconds since the epoch: `log -1 --format=%ct`.
pub fn committed_at_args(reference: &str) -> (args: Vec<String>)
    ensures
        views(args@) == spec_committed_at_args(reference@),
{
    let args = vec![text::owned("log"), text::owned("-1"), text::owned("--format=%ct"), text::owned(reference)];
    proof {
        assert(views(args@) =~= spec_committed_at_args(reference@));
    }
    args
}

/// Create `branch` off `base`, checked out in a new worktree at `path`.
pub open spec fn spec_worktree_add(path: Seq<char>, branch: Seq<char>, base: Seq<char>) -> Seq<Seq<char>> {
    seq!["worktree"@, "add"@, "-b"@, branch, path, base]
}

/// Create `branch` off `base`, checked out in a new worktree at `path`.
pub fn worktree_add(path: &str, branch: &str, base: &str) -> (args: Vec<String>)
    ensures
        views(args@) == spec_worktree_add(path@, branch@, base@),
{
    let args = vec![text::owned("worktree"), text::owned("add"), text::owned("-b"), text::owned(branch), text::owned(path), text::owned(base)];
    proof {
        assert(views(args@) =~= spec_worktree_add(path@, branch@, base@));
    }
    args
}

/// Check out an existing local branch in a new worktree.
pub open spec fn spec_worktree_add_existing(path: Seq<char>, branch: Seq<char>) -> Seq<Seq<char>> {
    seq!["worktree"@, "add"@, path, branch]
}

/// Check out an existing local branch in a new worktree.
pub fn worktree_add_existing(path: &str, branch: &str) -> (args: Vec<String>)
    ensures
        views(args@) == spec_worktree_add_existing(path@, branch@),
{
    let args = vec![text::owned("worktree"), text::owned("add"), text::owned(path), text::owned(branch)];
    proof {
        assert(views(args@) =~= spec_worktree_add_existing(path@, branch@));
    }
    args
}

/// Check out a ref detached in a new scratch worktree.
pub open spec fn spec_worktree_add_detached(path: Seq<char>, reference: Seq<char>) -> Seq<Seq<char>> {
    seq!["worktree"@, "add"@, "--detach"@, path, reference]
}

/// Check out a ref detached in a new scratch worktree.
pub fn worktree_add_detached(path: &str, reference: &str) -> (args: Vec<String>)
    ensures
        views(args@) == spec_worktree_add_detached(path@, reference@),
{
    let args = vec![text::owned("worktree"), text::owned("add"), text::owned("--detach"), text::owned(path), text::owned(reference)];
    proof {
        assert(views(args@) =~= spec_worktree_add_detached(path@, reference@));
    }
    args
}

/// Remove a worktree, forcing past an unclean tree.
pub open spec fn spec_worktree_remove(path: Seq<char>) -> Seq<Seq<char>> {
    seq!["worktree"@, "remove"@, "--force"@, path]
}

/// Remove a worktree, forcing past an unclean tree.
pub fn worktree_remove(path: &str) -> (args: Vec<String>)
    ensures
        views(args@) == spec_worktree_remove(path@),
{
    let args = vec![text::owned("worktree"), text::owned("remove"), text::owned("--force"), text::owned(path)];
    proof {
        assert(views(args@) =~= spec_worktree_remove(path@));
    }
    args
}

/// Drop worktree registrations git considers prunable.
pub open spec fn spec_worktree_prune() -> Seq<Seq<char>> {
    seq!["worktree"@, "prune"@, "--expire"@, "now"@]
}

/// Drop worktree registrations git considers prunable.
pub fn worktree_prune() -> (args: Vec<String>)
    ensures
        views(args@) == spec_worktree_prune(),
{
    let args = vec![text::owned("worktree"), text::owned("prune"), text::owned("--expire"), text::owned("now")];
    proof {
        assert(views(args@) =~= spec_worktree_prune());
    }
    args
}

/// Merge a ref into the checked-out branch: `merge --no-edit -m <message> <ref>`.
pub open spec fn spec_merge_into_branch_args(reference: Seq<char>, message: Seq<char>) -> Seq<Seq<char>> {
    seq!["merge"@, "--no-edit"@, "-m"@, message, reference]
}

/// Merge a ref into the checked-out branch: `merge --no-edit -m <message> <ref>`.
pub fn merge_into_branch_args(reference: &str, message: &str) -> (args: Vec<String>)
    ensures
        views(args@) == spec_merge_into_branch_args(reference@, message@),
{
    let args = vec![text::owned("merge"), text::owned("--no-edit"), text::owned("-m"), text::owned(message), text::owned(reference)];
    proof {
        assert(views(args@) =~= spec_merge_into_branch_args(reference@, message@));
    }
    args
}

/// Leave a conflicted merge as it was found: `merge --abort`.
pub open spec fn spec_merge_abort() -> Seq<Seq<char>> {
    seq!["merge"@, "--abort"@]
}

/// Leave a conflicted merge as it was found: `merge --abort`.
pub fn merge_abort() -> (args: Vec<String>)
    ensures
        views(args@) == spec_merge_abort(),
{
    let args = vec![text::owned("merge"), text::owned("--abort")];
    proof {
        assert(views(args@) =~= spec_merge_abort());
    }
    args
}

/// Squash-merge a ref into the index: `merge --squash <ref>`.
pub open spec fn spec_merge_squash_args(reference: Seq<char>) -> Seq<Seq<char>> {
    seq!["merge"@, "--squash"@, reference]
}

/// Squash-merge a ref into the index: `merge --squash <ref>`.
pub fn merge_squash_args(reference: &str) -> (args: Vec<String>)
    ensures
        views(args@) == spec_merge_squash_args(reference@),
{
    let args = vec![text::owned("merge"), text::owned("--squash"), text::owned(reference)];
    proof {
        assert(views(args@) =~= spec_merge_squash_args(reference@));
    }
    args
}

/// Fast-forward the current branch to a ref, or fail: `merge --ff-only <ref>`.
pub open spec fn spec_merge_ff_only(reference: Seq<char>) -> Seq<Seq<char>> {
    seq!["merge"@, "--ff-only"@, reference]
}

/// Fast-forward the current branch to a ref, or fail: `merge --ff-only <ref>`.
pub fn merge_ff_only(reference: &str) -> (args: Vec<String>)
    ensures
        views(args@) == spec_merge_ff_only(reference@),
{
    let args = vec![text::owned("merge"), text::owned("--ff-only"), text::owned(reference)];
    proof {
        assert(views(args@) =~= spec_merge_ff_only(reference@));
    }
    args
}

/// Ask the remote itself where a branch is: `ls-remote --exit-code <remote> refs/heads/<branch>`.
pub open spec fn spec_remote_tip_args(remote: Seq<char>, branch: Seq<char>) -> Seq<Seq<char>> {
    seq!["ls-remote"@, "--exit-code"@, remote, "refs/heads/"@ + branch]
}

/// Ask the remote itself where a branch is: `ls-remote --exit-code <remote> refs/heads/<branch>`.
pub fn remote_tip_args(remote: &str, branch: &str) -> (args: Vec<String>)
    ensures
        views(args@) == spec_remote_tip_args(remote@, branch@),
{
    let args = vec![text::owned("ls-remote"), text::owned("--exit-code"), text::owned(remote), text::concat("refs/heads/", branch)];
    proof {
        assert(views(args@) =~= spec_remote_tip_args(remote@, branch@));
    }
    args
}

/// Copy one local branch into the repository this runs in, from `source`, never forced.
pub open spec fn spec_copy_branch(source: Seq<char>, branch: Seq<char>) -> Seq<Seq<char>> {
    seq!["fetch"@, source, "refs/heads/"@ + branch + ":refs/heads/"@ + branch]
}

/// Copy one local branch into the repository this runs in, from `source`, never forced.
pub fn copy_branch(source: &str, branch: &str) -> (args: Vec<String>)
    ensures
        views(args@) == spec_copy_branch(source@, branch@),
{
    let args = vec![text::owned("fetch"), text::owned(source), text::concat4("refs/heads/", branch, ":refs/heads/", branch)];
    proof {
        assert(views(args@) =~= spec_copy_branch(source@, branch@));
    }
    args
}

/// Fetch one branch from a repository path or a remote into a scratch ref, replacing it.
pub open spec fn spec_fetch_into_ref(source: Seq<char>, branch: Seq<char>, into: Seq<char>) -> Seq<Seq<char>> {
    seq!["fetch"@, source, "+refs/heads/"@ + branch + ":"@ + into]
}

/// Fetch one branch from a repository path or a remote into a scratch ref, replacing it.
pub fn fetch_into_ref(source: &str, branch: &str, into: &str) -> (args: Vec<String>)
    ensures
        views(args@) == spec_fetch_into_ref(source@, branch@, into@),
{
    let args = vec![text::owned("fetch"), text::owned(source), text::concat4("+refs/heads/", branch, ":", into)];
    proof {
        assert(views(args@) =~= spec_fetch_into_ref(source@, branch@, into@));
    }
    args
}

/// Point a ref at a commit: `update-ref <ref> <commit>`.
pub open spec fn spec_update_ref(reference: Seq<char>, commit: Seq<char>) -> Seq<Seq<char>> {
    seq!["update-ref"@, reference, commit]
}

/// Point a ref at a commit: `update-ref <ref> <commit>`.
pub fn update_ref(reference: &str, commit: &str) -> (args: Vec<String>)
    ensures
        views(args@) == spec_update_ref(reference@, commit@),
{
    let args = vec![text::owned("update-ref"), text::owned(reference), text::owned(commit)];
    proof {
        assert(views(args@) =~= spec_update_ref(reference@, commit@));
    }
    args
}

/// Remove a ref, whatever it held: `update-ref -d <ref>`.
pub open spec fn spec_delete_ref(reference: Seq<char>) -> Seq<Seq<char>> {
    seq!["update-ref"@, "-d"@, reference]
}

/// Remove a ref, whatever it held: `update-ref -d <ref>`.
pub fn delete_ref(reference: &str) -> (args: Vec<String>)
    ensures
        views(args@) == spec_delete_ref(reference@),
{
    let args = vec![text::owned("update-ref"), text::owned("-d"), text::owned(reference)];
    proof {
        assert(views(args@) =~= spec_delete_ref(reference@));
    }
    args
}

/// Every configured remote: `remote`.
pub open spec fn spec_remotes_args() -> Seq<Seq<char>> {
    seq!["remote"@]
}

/// Every configured remote: `remote`.
pub fn remotes_args() -> (args: Vec<String>)
    ensures
        views(args@) == spec_remotes_args(),
{
    let args = vec![text::owned("remote")];
    proof {
        assert(views(args@) =~= spec_remotes_args());
    }
    args
}

/// Adopt a branch from another local repository, overwriting the local ref.
pub open spec fn spec_import_branch(source: Seq<char>, branch: Seq<char>) -> Seq<Seq<char>> {
    seq!["fetch"@, source, "+refs/heads/"@ + branch + ":refs/heads/"@ + branch]
}

/// Adopt a branch from another local repository, overwriting the local ref.
pub fn import_branch(source: &str, branch: &str) -> (args: Vec<String>)
    ensures
        views(args@) == spec_import_branch(source@, branch@),
{
    let args = vec![text::owned("fetch"), text::owned(source), text::concat4("+refs/heads/", branch, ":refs/heads/", branch)];
    proof {
        assert(views(args@) =~= spec_import_branch(source@, branch@));
    }
    args
}

/// Push a branch, reporting each ref in git's machine-readable form: `push --porcelain <remote> <branch>`.
pub open spec fn spec_push(branch: Seq<char>, remote: Seq<char>) -> Seq<Seq<char>> {
    seq!["push"@, "--porcelain"@, remote, branch]
}

/// Push a branch, reporting each ref in git's machine-readable form: `push --porcelain <remote> <branch>`.
pub fn push(branch: &str, remote: &str) -> (args: Vec<String>)
    ensures
        views(args@) == spec_push(branch@, remote@),
{
    let args = vec![text::owned("push"), text::owned("--porcelain"), text::owned(remote), text::owned(branch)];
    proof {
        assert(views(args@) =~= spec_push(branch@, remote@));
    }
    args
}

/// Set one repository-local configuration value: `config <key> <value>`.
pub open spec fn spec_retain_config_args(key: Seq<char>, value: Seq<char>) -> Seq<Seq<char>> {
    seq!["config"@, key, value]
}

/// Set one repository-local configuration value: `config <key> <value>`.
pub fn retain_config_args(key: &str, value: &str) -> (args: Vec<String>)
    ensures
        views(args@) == spec_retain_config_args(key@, value@),
{
    let args = vec![text::owned("config"), text::owned(key), text::owned(value)];
    proof {
        assert(views(args@) =~= spec_retain_config_args(key@, value@));
    }
    args
}


// ---------------------------------------------------------------------------
// Plans of several commands
// ---------------------------------------------------------------------------

/// The commands that give a clone the lender's remote-tracking refs and name its
/// base as `origin/HEAD` (see [`carry_remote_refs`]).
pub open spec fn spec_carried_refs(source: Seq<char>, base: Seq<char>, source_has_origin: bool) -> Seq<
    Seq<Seq<char>>,
> {
    (if source_has_origin {
        seq![seq!["fetch"@, "--no-tags"@, source, REMOTE_TRACKING@]]
    } else {
        seq![]
    }) + seq![seq!["symbolic-ref"@, "refs/remotes/origin/HEAD"@, "refs/remotes/origin/"@ + base]]
}

/// Clone `source` into a working-tree-less repository that borrows its objects;
/// point its `origin` at the real origin; give it the lender's remote-tracking refs
/// with `origin/HEAD` naming `base`; and carry the lender's hooks setting
/// (`configured`, its answer to [`hooks_path_args`]): the commands, in order, the
/// first run anywhere and the rest in the clone.
pub fn clone_sharing(
    source: &str,
    dest: &str,
    origin: &str,
    base: &str,
    source_has_origin: bool,
    configured: &Output,
    repository_hooks_present: bool,
) -> (plan: Vec<Vec<String>>)
    ensures
        text::argv_views(plan@) == seq![
            seq!["clone"@, "--shared"@, "--no-checkout"@, source@, dest@],
            seq!["remote"@, "set-url"@, "origin"@, origin@],
        ] + spec_carried_refs(source@, base@, source_has_origin) + match spec_carried_hooks(
            configured.stdout@,
            repository_hooks_present,
        ) {
            Some(hooks) => seq![seq!["config"@, "core.hooksPath"@, hooks]],
            None => seq![],
        },
{
    let clone = vec![
        text::owned("clone"),
        text::owned("--shared"),
        text::owned("--no-checkout"),
        text::owned(source),
        text::owned(dest),
    ];
    let set_url = vec![
        text::owned("remote"),
        text::owned("set-url"),
        text::owned("origin"),
        text::owned(origin),
    ];
    proof {
        assert(views(clone@) =~= seq!["clone"@, "--shared"@, "--no-checkout"@, source@, dest@]);
        assert(views(set_url@) =~= seq!["remote"@, "set-url"@, "origin"@, origin@]);
    }
    let mut plan = vec![clone, set_url];
    proof {
        assert(text::argv_views(plan@) =~= seq![views(plan@[0]@), views(plan@[1]@)]);
    }
    let carried = carry_remote_refs(source, base, source_has_origin);
    let mut k: usize = 0;
    let ghost start = text::argv_views(plan@);
    while k < carried.len()
        invariant
            k <= carried@.len(),
            text::argv_views(plan@) == start + text::argv_views(carried@).take(k as int),
        decreases carried.len() - k,
    {
        let ghost before = text::argv_views(plan@);
        plan.push(carried[k].clone());
        proof {
            assert(text::argv_views(plan@) =~= before.push(views(carried@[k as int]@)));
            assert(text::argv_views(carried@).take(k + 1) =~= text::argv_views(carried@).take(k as int).push(
                views(carried@[k as int]@),
            ));
        }
        k = k + 1;
    }
    proof {
        assert(text::argv_views(carried@).take(carried@.len() as int) =~= text::argv_views(carried@));
    }
    match carry_hooks(configured, repository_hooks_present) {
        Some(hooks) => {
            let ghost before = text::argv_views(plan@);
            let ghost h = views(hooks@);
            plan.push(hooks);
            proof {
                assert(text::argv_views(plan@) =~= before.push(h));
            }
        },
        None => {},
    }
    plan
}

/// The refspec that gives a clone the lender's view of origin: forced, never pruned.
pub const REMOTE_TRACKING: &'static str = "+refs/remotes/origin/*:refs/remotes/origin/*";

/// Give a clone the lender's *remote-tracking* refs rather than its local branches,
/// then make `origin/HEAD` name `base` symbolically: the commands, in order. Where
/// the lender has no `origin` there is nothing to copy and only the second is run.
pub fn carry_remote_refs(source: &str, base: &str, source_has_origin: bool) -> (plan: Vec<
    Vec<String>,
>)
    ensures
        text::argv_views(plan@) == (if source_has_origin {
            seq![seq!["fetch"@, "--no-tags"@, source@, REMOTE_TRACKING@]]
        } else {
            seq![]
        }) + seq![
            seq!["symbolic-ref"@, "refs/remotes/origin/HEAD"@, "refs/remotes/origin/"@ + base@],
        ],
{
    let mut plan: Vec<Vec<String>> = Vec::new();
    if source_has_origin {
        let copy = vec![
            text::owned("fetch"),
            text::owned("--no-tags"),
            text::owned(source),
            text::owned(REMOTE_TRACKING),
        ];
        proof {
            assert(views(copy@) =~= seq!["fetch"@, "--no-tags"@, source@, REMOTE_TRACKING@]);
        }
        plan.push(copy);
    }
    let head = vec![
        text::owned("symbolic-ref"),
        text::owned("refs/remotes/origin/HEAD"),
        text::concat("refs/remotes/origin/", base),
    ];
    proof {
        assert(views(head@) =~= seq![
            "symbolic-ref"@,
            "refs/remotes/origin/HEAD"@,
            "refs/remotes/origin/"@ + base@,
        ]);
    }
    let ghost before = plan@;
    plan.push(head);
    proof {
        assert(text::argv_views(plan@) =~= text::argv_views(before).push(views(head@)));
    }
    plan
}

/// The hooks directory a clone is configured with: the lender's `core.hooksPath`
/// where it configures one, else the repository's own `.githooks` where that
/// directory exists, else nothing to configure.
pub open spec fn spec_carried_hooks(configured: Seq<char>, repository_hooks_present: bool) -> Option<
    Seq<char>,
> {
    if spec_trim(configured).len() > 0 {
        Some(spec_trim(configured))
    } else if repository_hooks_present {
        Some(".githooks"@)
    } else {
        None
    }
}

/// Give a clone the hook configuration its published content expects: the command
/// that sets `core.hooksPath`, from the lender's answer to [`hooks_path_args`], or
/// `None` where there is nothing to carry.
pub fn carry_hooks(configured: &Output, repository_hooks_present: bool) -> (r: Option<Vec<String>>)
    ensures
        match spec_carried_hooks(configured.stdout@, repository_hooks_present) {
            Some(hooks) => r is Some && views(r.unwrap()@) == seq![
                "config"@,
                "core.hooksPath"@,
                hooks,
            ],
            None => r is None,
        },
{
    let value = configured.trimmed();
    let hooks = if text::chars_of(&value).len() > 0 {
        value
    } else if repository_hooks_present {
        text::owned(".githooks")
    } else {
        return None;
    };
    let args = vec![text::owned("config"), text::owned("core.hooksPath"), hooks];
    proof {
        assert(views(args@) =~= seq!["config"@, "core.hooksPath"@, args@[2]@]);
    }
    Some(args)
}

/// Stop a repository from deleting objects a borrowing clone still needs: automatic gc
/// off, unreachable objects never expired.
pub fn retain_objects_for_borrowers() -> (plan: Vec<Vec<String>>)
    ensures
        text::argv_views(plan@) == seq![
            spec_retain_config_args("gc.auto"@, "0"@),
            spec_retain_config_args("gc.pruneExpire"@, "never"@),
        ],
{
    let auto = retain_config_args("gc.auto", "0");
    let expire = retain_config_args("gc.pruneExpire", "never");
    let plan = vec![auto, expire];
    proof {
        assert(text::argv_views(plan@) =~= seq![views(plan@[0]@), views(plan@[1]@)]);
    }
    plan
}

// ---------------------------------------------------------------------------
// The remote's default branch
// ---------------------------------------------------------------------------

/// The branch `<remote>/HEAD` names, read from the answer to [`tracked_head_args`],
/// with the fully spelled remote-tracking ref that must still exist for it to stand.
pub fn tracked_head(remote: &str, named: &Output) -> (r: Option<(String, String)>)
    ensures
        match r {
            Some((branch, reference)) => text::spec_strip_prefix(
                spec_trim(named.stdout@),
                remote@ + "/"@,
            ) == Some(branch@) && reference@ == "refs/remotes/"@ + spec_trim(named.stdout@),
            None => text::spec_strip_prefix(spec_trim(named.stdout@), remote@ + "/"@) is None,
        },
{
    let value = named.trimmed();
    let prefix = text::concat(remote, "/");
    match text::strip_prefix(&value, &prefix) {
        Some(branch) => Some((branch, text::concat("refs/remotes/", &value))),
        None => None,
    }
}

/// Everything before the first `sep`: `str::split(sep).next()`.
pub open spec fn spec_first_field(s: Seq<char>, sep: char) -> Seq<char> {
    let i = text::spec_index_of(s, sep);
    if i < 0 {
        s
    } else {
        s.take(i)
    }
}

fn first_field(s: &str, sep: char) -> (out: String)
    ensures
        out@ == spec_first_field(s@, sep),
{
    let chars = text::chars_of(s);
    proof {
        assert(chars@.skip(0) =~= chars@);
    }
    match text::find_char(&chars, sep, 0) {
        Some(i) => {
            let out = text::string_of(&chars, 0, i);
            assert(out@ =~= s@.take(i as int));
            out
        },
        None => text::owned(s),
    }
}

/// The branch a `ref: refs/heads/<branch>\tHEAD` line advertises, if it is one.
pub open spec fn spec_symref_branch(line: Seq<char>) -> Option<Seq<char>> {
    match text::spec_strip_prefix(line, "ref: refs/heads/"@) {
        Some(rest) => if spec_first_field(rest, '\t').len() > 0 {
            Some(spec_first_field(rest, '\t'))
        } else {
            None
        },
        None => None,
    }
}

/// The first branch any of `lines` advertises.
pub open spec fn spec_first_symref(lines: Seq<Seq<char>>) -> Option<Seq<char>>
    decreases lines.len(),
{
    if lines.len() == 0 {
        None
    } else {
        match spec_symref_branch(lines[0]) {
            Some(branch) => Some(branch),
            None => spec_first_symref(lines.drop_first()),
        }
    }
}

/// The branch the remote itself says its HEAD is, from the answer to
/// [`advertised_head_args`]; nothing where the remote could not be asked or
/// advertises no symref, as one whose HEAD dangles does.
pub fn advertised_head(listing: &Output) -> (r: Option<String>)
    ensures
        text::opt_view(r) == (if listing.status == 0 {
            spec_first_symref(spec_lines(listing.stdout@))
        } else {
            None
        }),
{
    if !listing.ok() {
        return None;
    }
    let lines = text::lines(&listing.stdout);
    let mut k: usize = 0;
    proof {
        assert(views(lines@).skip(0) =~= views(lines@));
    }
    while k < lines.len()
        invariant
            listing.status == 0,
            k <= lines@.len(),
            views(lines@) == spec_lines(listing.stdout@),
            spec_first_symref(views(lines@)) == spec_first_symref(views(lines@).skip(k as int)),
        decreases lines.len() - k,
    {
        let ghost rest = views(lines@).skip(k as int);
        proof {
            assert(rest[0] == lines@[k as int]@);
            assert(rest.drop_first() =~= views(lines@).skip(k + 1));
        }
        match text::strip_prefix(&lines[k], "ref: refs/heads/") {
            Some(after) => {
                let branch = first_field(&after, '\t');
                if text::chars_of(&branch).len() > 0 {
                    proof {
                        assert(spec_symref_branch(rest[0]) == Some(branch@));
                    }
                    return Some(branch);
                }
                proof {
                    assert(spec_symref_branch(rest[0]) is None);
                }
            },
            None => {
                proof {
                    assert(spec_symref_branch(rest[0]) is None);
                }
            },
        }
        k = k + 1;
    }
    None
}

/// A listed remote branch that could be the default: a non-empty name other than
/// `HEAD`.
pub open spec fn spec_plausible(name: Seq<char>) -> bool {
    name.len() > 0 && name != "HEAD"@
}

/// The remote branches that could be the default, from the answer to
/// [`candidates_args`]: each plausible name once, in `String`'s order.
pub fn candidates(remote: &str, answer: Output) -> (r: Result<Vec<String>>)
    ensures
        match r {
            Ok(names) => answer.status == 0 && text::spec_strictly_sorted(views(names@))
                && forall|x: Seq<char>|
                views(names@).contains(x) <==> spec_lines(answer.stdout@).filter(
                    |line: Seq<char>| spec_plausible(line),
                ).contains(x),
            Err(e) => answer.status != 0 && spec_refused(
                e,
                spec_failed(spec_candidates_args(remote@), answer),
            ),
        },
{
    let args = candidates_args(remote);
    let kept = checked(&args, answer)?;
    let lines = text::lines(&kept.stdout);
    let mut plausible: Vec<String> = Vec::new();
    let mut k: usize = 0;
    while k < lines.len()
        invariant
            k <= lines@.len(),
            views(plausible@) == views(lines@.take(k as int)).filter(
                |line: Seq<char>| spec_plausible(line),
            ),
        decreases lines.len() - k,
    {
        proof {
            assert(views(lines@.take(k + 1)) =~= views(lines@.take(k as int)).push(lines@[k as int]@));
            views(lines@.take(k as int)).lemma_filter_push(
                lines@[k as int]@,
                |line: Seq<char>| spec_plausible(line),
            );
        }
        let line = &lines[k];
        if text::chars_of(line).len() > 0 && !text::str_eq(line, "HEAD") {
            plausible.push(line.clone());
            proof {
                assert(views(plausible@) =~= views(plausible@.drop_last()).push(line@));
            }
        }
        k = k + 1;
    }
    proof {
        assert(lines@.take(lines@.len() as int) =~= lines@);
    }
    Ok(text::sorted_distinct(&plausible))
}

/// The branch `<remote>/HEAD` names, when it still stands: the answer to
/// [`tracked_head_args`] names a branch of `remote`, and `exists`, the answer to
/// [`ref_exists_args`] on the ref [`tracked_head`] spells, says that ref is there
/// (no answer counts as absent).
pub fn tracked_branch(remote: &str, named: &Output, exists: Option<&Output>) -> (r: Option<String>)
    ensures
        text::opt_view(r) == match text::spec_strip_prefix(spec_trim(named.stdout@), remote@ + "/"@) {
            Some(branch) => match exists {
                Some(o) if o.status == 0 => Some(branch),
                _ => None,
            },
            None => None,
        },
{
    match tracked_head(remote, named) {
        Some((branch, _reference)) => match exists {
            Some(o) => if o.ok() {
                Some(branch)
            } else {
                None
            },
            None => None,
        },
        None => None,
    }
}

/// What a remote whose default branch nothing settles is refused as.
pub open spec fn spec_no_default(remote: Seq<char>, detail: Seq<char>) -> Seq<char> {
    "cannot determine the default branch of remote "@ + text::spec_debug_quoted(remote) + ": "@
        + remote + "/HEAD is missing or stale, the remote advertises no HEAD of its own, and the plausible remote branches are "@
        + detail + "; pass an explicit --base"@
}

/// The remote's default branch, first answer wins: the branch `<remote>/HEAD` names
/// where it still stands ([`tracked_branch`]); the HEAD the remote advertises
/// ([`advertised_head`]); the one plausible remote branch; where there is none, the
/// branch the checkout is on (the answer to [`current_head_args`]); and otherwise a
/// refusal that names what it found, rather than a guess.
pub fn default_branch(
    remote: &str,
    named_head: Option<String>,
    advertised: Option<String>,
    candidates: &[String],
    current: Option<&Output>,
) -> (r: Result<String>)
    ensures
        named_head is Some ==> r is Ok && r.unwrap()@ == named_head.unwrap()@,
        named_head is None && advertised is Some ==> r is Ok && r.unwrap()@ == advertised.unwrap()@,
        named_head is None && advertised is None && candidates@.len() == 1 ==> r is Ok && r.unwrap()@
            == candidates@[0]@,
        named_head is None && advertised is None && candidates@.len() == 0 ==> match current {
            Some(o) if spec_trim(o.stdout@).len() > 0 => r is Ok && r.unwrap()@ == spec_trim(
                o.stdout@,
            ),
            _ => r is Err && spec_refused(r->Err_0, spec_no_default(remote@, "none"@)),
        },
        named_head is None && advertised is None && candidates@.len() > 1 ==> r is Err && spec_refused(
            r->Err_0,
            spec_no_default(remote@, spec_join(views(candidates@), ", "@)),
        ),
{
    if let Some(branch) = named_head {
        return Ok(branch);
    }
    if let Some(branch) = advertised {
        return Ok(branch);
    }
    if candidates.len() == 1 {
        return Ok(candidates[0].clone());
    }
    if candidates.len() == 0 {
        match current {
            Some(o) => {
                let branch = o.trimmed();
                if text::chars_of(&branch).len() > 0 {
                    return Ok(branch);
                }
            },
            None => {},
        }
    }
    let detail = if candidates.len() == 0 {
        text::owned("none")
    } else {
        text::join(candidates, ", ")
    };
    let mut reason = text::owned("cannot determine the default branch of remote ");
    let quoted = text::debug_quoted(remote);
    reason.append(&quoted);
    reason.append(": ");
    reason.append(remote);
    reason.append("/HEAD is missing or stale, the remote advertises no HEAD of its own, and the plausible remote branches are ",
    );
    reason.append(&detail);
    reason.append("; pass an explicit --base");
    Err(Error::Invalid { reason })
}

// ---------------------------------------------------------------------------
// Unpublished work
// ---------------------------------------------------------------------------

/// How many commits `reference` holds that no `origin` remote-tracking ref has and
/// none of `held` reaches, in one walk: everything after `--not` is negated together.
/// `held` is the carried names that resolve; one that does not would make git refuse
/// the whole walk.
pub fn unpublished_ahead_args(reference: &str, held: &[String]) -> (args: Vec<String>)
    ensures
        views(args@) == seq!["rev-list"@, "--count"@, reference@, "--not"@, "--remotes=origin"@]
            + views(held@),
{
    let mut args = vec![
        text::owned("rev-list"),
        text::owned("--count"),
        text::owned(reference),
        text::owned("--not"),
        text::owned("--remotes=origin"),
    ];
    let mut k: usize = 0;
    while k < held.len()
        invariant
            k <= held@.len(),
            views(args@) == seq!["rev-list"@, "--count"@, reference@, "--not"@, "--remotes=origin"@]
                + views(held@.take(k as int)),
        decreases held.len() - k,
    {
        let ghost before = args@;
        args.push(held[k].clone());
        proof {
            assert(views(held@.take(k + 1)) =~= views(held@.take(k as int)).push(held@[k as int]@));
            assert(views(args@) =~= views(before).push(held@[k as int]@));
            assert((seq!["rev-list"@, "--count"@, reference@, "--not"@, "--remotes=origin"@]
                + views(held@.take(k as int))).push(held@[k as int]@) =~= seq![
                "rev-list"@,
                "--count"@,
                reference@,
                "--not"@,
                "--remotes=origin"@,
            ] + views(held@.take(k + 1)));
        }
        k = k + 1;
    }
    proof {
        assert(held@.take(held@.len() as int) =~= held@);
    }
    args
}

/// What a count git declined is refused as, where the reference is still there.
pub open spec fn spec_uncounted(cwd: Seq<char>, reference: Seq<char>, stderr: Seq<char>) -> Seq<
    char,
> {
    "git could not count what "@ + text::spec_debug_quoted(reference) + " holds in "@ + cwd
        + ", and a count nobody got is not a count of none: "@ + spec_trim(stderr)
}

/// What a count that is not a number is refused as.
pub open spec fn spec_not_a_count(reference: Seq<char>, answer: Seq<char>) -> Seq<char> {
    "git counted the commits "@ + text::spec_debug_quoted(reference) + " holds and answered "@
        + text::spec_debug_quoted(answer) + ", which is not a number of commits"@
}

/// Whether a parse produced a value a `u64` holds.
pub open spec fn spec_fits(p: Option<nat>) -> bool {
    p is Some && p.unwrap() <= u64::MAX
}

/// How many unpublished commits `reference` holds, from the answer to
/// [`unpublished_ahead_args`]. `0` is what lets a clone be let go of, so it is
/// answered only where git counted none, or where git declined and `reference`
/// itself no longer resolves; a refusal while it still does, and an answer that is
/// not a number, are errors rather than zero.
pub fn unpublished_ahead(
    cwd: &str,
    reference: &str,
    counted: &Output,
    reference_resolves: bool,
) -> (r: Result<u64>)
    ensures
        counted.status != 0 && !reference_resolves ==> r == Ok::<u64, Error>(0u64),
        counted.status != 0 && reference_resolves ==> r is Err && spec_refused(
            r->Err_0,
            spec_uncounted(cwd@, reference@, counted.stderr@),
        ),
        counted.status == 0 ==> {
            let parsed = text::spec_parse_unsigned(spec_trim(counted.stdout@));
            if spec_fits(parsed) {
                r is Ok && r.unwrap() == parsed.unwrap()
            } else {
                r is Err && spec_refused(
                    r->Err_0,
                    spec_not_a_count(reference@, spec_trim(counted.stdout@)),
                )
            }
        },
{
    if !counted.ok() {
        if !reference_resolves {
            return Ok(0);
        }
        let mut reason = text::owned("git could not count what ");
        let quoted = text::debug_quoted(reference);
        reason.append(&quoted);
        reason.append(" holds in ");
        reason.append(cwd);
        reason.append(", and a count nobody got is not a count of none: ");
        let stderr = text::trim(&counted.stderr);
        reason.append(&stderr);
        return Err(Error::Invalid { reason });
    }
    let answer = counted.trimmed();
    match text::parse_unsigned(&answer) {
        Some(value) => Ok(value),
        None => {
            let mut reason = text::owned("git counted the commits ");
            let quoted = text::debug_quoted(reference);
            reason.append(&quoted);
            reason.append(" holds and answered ");
            let shown = text::debug_quoted(&answer);
            reason.append(&shown);
            reason.append(", which is not a number of commits");
            Err(Error::Invalid { reason })
        },
    }
}

// ---------------------------------------------------------------------------
// History and content
// ---------------------------------------------------------------------------

/// One commit's full SHA and message.
#[derive(Debug, Clone)]
pub struct CommitMessage {
    /// The commit's full SHA.
    pub sha: String,
    /// Its whole message, subject and body.
    pub message: String,
}

/// The commit one record of [`log_messages_args`]'s answer holds: the record with
/// newlines and NULs trimmed off both ends, cut at its first NUL into a SHA and a
/// message whose trailing white space is dropped. A record with no NUL holds none.
pub open spec fn spec_record(record: Seq<char>) -> Option<(Seq<char>, Seq<char>)> {
    let value = text::spec_trim_by(record, text::either('\n', '\0'));
    match text::spec_split_once(value, '\0') {
        Some((sha, message)) => Some((sha, text::spec_trim_end(message))),
        None => None,
    }
}

/// The commits a run of records holds, in order.
pub open spec fn spec_records(records: Seq<Seq<char>>) -> Seq<(Seq<char>, Seq<char>)>
    decreases records.len(),
{
    if records.len() == 0 {
        seq![]
    } else {
        match spec_record(records.last()) {
            Some(c) => spec_records(records.drop_last()).push(c),
            None => spec_records(records.drop_last()),
        }
    }
}

/// The views of a list of commits.
pub open spec fn commit_views(v: Seq<CommitMessage>) -> Seq<(Seq<char>, Seq<char>)> {
    v.map_values(|c: CommitMessage| (c.sha@, c.message@))
}

/// Full commit messages in `branch` but not `base`, oldest first: the answer to
/// [`log_messages_args`], split at the record separator.
pub fn log_messages(base: &str, branch: &str, answer: Output) -> (r: Result<Vec<CommitMessage>>)
    ensures
        match r {
            Ok(commits) => answer.status == 0 && commit_views(commits@) == spec_records(
                text::spec_split(answer.stdout@, '\u{1e}'),
            ),
            Err(e) => answer.status != 0 && spec_refused(
                e,
                spec_failed(spec_log_messages_args(base@, branch@), answer),
            ),
        },
{
    let args = log_messages_args(base, branch);
    let kept = checked(&args, answer)?;
    let records = text::split(&kept.stdout, '\u{1e}');
    let mut commits: Vec<CommitMessage> = Vec::new();
    let mut k: usize = 0;
    while k < records.len()
        invariant
            k <= records@.len(),
            commit_views(commits@) == spec_records(views(records@.take(k as int))),
        decreases records.len() - k,
    {
        proof {
            assert(views(records@.take(k + 1)).drop_last() =~= views(records@.take(k as int)));
            assert(views(records@.take(k + 1)).last() == records@[k as int]@);
        }
        let value = text::trim_either(&records[k], '\n', '\0');
        match text::split_once(&value, '\0') {
            Some((sha, message)) => {
                let message = text::trim_end(&message);
                let ghost before = commits@;
                commits.push(CommitMessage { sha, message });
                proof {
                    assert(commit_views(commits@) =~= commit_views(before).push(
                        (commits@.last().sha@, commits@.last().message@),
                    ));
                }
            },
            None => {},
        }
        k = k + 1;
    }
    proof {
        assert(records@.take(records@.len() as int) =~= records@);
    }
    Ok(commits)
}

/// An answer read off git's exit status: `0` and `1` are the two answers, anything
/// else is a failure refused with `reason`.
pub open spec fn spec_by_status(o: Output, on_zero: bool, reason: Seq<char>, r: Result<bool>) -> bool {
    if o.status == 0 {
        r == Ok::<bool, Error>(on_zero)
    } else if o.status == 1 {
        r == Ok::<bool, Error>(!on_zero)
    } else {
        r is Err && spec_refused(r->Err_0, reason)
    }
}

fn by_status(o: &Output, on_zero: bool, reason: String) -> (r: Result<bool>)
    ensures
        spec_by_status(*o, on_zero, reason@, r),
{
    if o.status == 0 {
        Ok(on_zero)
    } else if o.status == 1 {
        Ok(!on_zero)
    } else {
        Err(Error::Invalid { reason })
    }
}

/// Whether two refs' trees differ at all: the exit status of [`trees_differ_args`].
/// Content rather than ancestry, because a squashed publication is an ancestor of
/// nothing.
pub fn trees_differ(base: &str, branch: &str, answer: &Output) -> (r: Result<bool>)
    ensures
        spec_by_status(
            *answer,
            false,
            "git diff "@ + base@ + " "@ + branch@ + " failed: "@ + spec_diagnostic(*answer),
            r,
        ),
{
    let mut reason = text::concat3("git diff ", base, " ");
    reason.append(branch);
    reason.append(" failed: ");
    let diagnostic = answer.diagnostic();
    reason.append(&diagnostic);
    by_status(answer, false, reason)
}

/// Whether `ancestor` is reachable from `descendant`: the exit status of
/// [`is_ancestor_args`].
pub fn is_ancestor(answer: &Output) -> (r: Result<bool>)
    ensures
        spec_by_status(*answer, true, "git merge-base failed: "@ + spec_diagnostic(*answer), r),
{
    let mut reason = text::owned("git merge-base failed: ");
    let diagnostic = answer.diagnostic();
    reason.append(&diagnostic);
    by_status(answer, true, reason)
}

/// Whether a repository can *show* that `descendant` reaches `ancestor`: `false`
/// where it holds either commit not at all — the safe direction, since the copy then
/// loses the comparison — and otherwise [`is_ancestor`] on the answer it gave.
pub fn known_to_reach(ancestor_held: bool, descendant_held: bool, ancestry: Option<&Output>) -> (r:
    Result<bool>)
    requires
        ancestor_held && descendant_held ==> ancestry is Some,
    ensures
        !(ancestor_held && descendant_held) ==> r == Ok::<bool, Error>(false),
        ancestor_held && descendant_held ==> spec_by_status(
            *ancestry.unwrap(),
            true,
            "git merge-base failed: "@ + spec_diagnostic(*ancestry.unwrap()),
            r,
        ),
{
    if !(ancestor_held && descendant_held) {
        return Ok(false);
    }
    match ancestry {
        Some(answer) => is_ancestor(answer),
        None => Ok(false),
    }
}

/// The commit two refs last had in common, or `None` when they share no history: the
/// answer to [`merge_base_args`]. An empty answer is read as no shared history,
/// which stops a replay rather than starting one.
pub fn merge_base(first: &str, second: &str, answer: &Output) -> (r: Result<Option<String>>)
    ensures
        answer.status == 0 ==> r is Ok && text::opt_view(r.unwrap()) == (if spec_trim(
            answer.stdout@,
        ).len() > 0 {
            Some(spec_trim(answer.stdout@))
        } else {
            None
        }),
        answer.status == 1 ==> r is Ok && r.unwrap() is None,
        answer.status != 0 && answer.status != 1 ==> r is Err && spec_refused(
            r->Err_0,
            "git merge-base "@ + first@ + " "@ + second@ + " failed: "@ + spec_diagnostic(*answer),
        ),
{
    if answer.status == 0 {
        let sha = answer.trimmed();
        if text::chars_of(&sha).len() > 0 {
            return Ok(Some(sha));
        }
        return Ok(None);
    }
    if answer.status == 1 {
        return Ok(None);
    }
    let mut reason = text::concat3("git merge-base ", first, " ");
    reason.append(second);
    reason.append(" failed: ");
    let diagnostic = answer.diagnostic();
    reason.append(&diagnostic);
    Err(Error::Invalid { reason })
}

/// How many lines a comparison adds and how many it removes.
#[derive(Debug, Clone, Copy, PartialEq, Eq, Structural)]
pub struct Lines {
    /// Lines added.
    pub added: u64,
    /// Lines removed.
    pub removed: u64,
}

/// What one `--numstat` line says: `None` where it is not two counts and a path,
/// `Some(None)` for a binary file git writes `-` for on both sides, and the two
/// counts otherwise.
pub open spec fn spec_numstat_line(line: Seq<char>) -> Option<Option<(nat, nat)>> {
    match text::spec_split_once(line, '\t') {
        Some((added, rest)) => match text::spec_split_once(rest, '\t') {
            Some((removed, _path)) => if added == "-"@ && removed == "-"@ {
                Some(None)
            } else if spec_fits(text::spec_parse_unsigned(added)) && spec_fits(
                text::spec_parse_unsigned(removed),
            ) {
                Some(
                    Some(
                        (
                            text::spec_parse_unsigned(added).unwrap(),
                            text::spec_parse_unsigned(removed).unwrap(),
                        ),
                    ),
                )
            } else {
                None
            },
            None => None,
        },
        None => None,
    }
}

/// A sum that stops at the largest `u64`.
pub open spec fn saturating(n: nat) -> nat {
    if n > u64::MAX {
        u64::MAX as nat
    } else {
        n
    }
}

/// The first line of a listing that is not two counts and a path.
pub open spec fn spec_first_unreadable(lines: Seq<Seq<char>>) -> Option<Seq<char>>
    decreases lines.len(),
{
    if lines.len() == 0 {
        None
    } else {
        match spec_first_unreadable(lines.drop_last()) {
            Some(line) => Some(line),
            None => if spec_numstat_line(lines.last()) is None {
                Some(lines.last())
            } else {
                None
            },
        }
    }
}

/// The lines a readable listing adds and removes, each sum saturating.
pub open spec fn spec_line_totals(lines: Seq<Seq<char>>) -> (nat, nat)
    decreases lines.len(),
{
    if lines.len() == 0 {
        (0, 0)
    } else {
        let (a, r) = spec_line_totals(lines.drop_last());
        match spec_numstat_line(lines.last()) {
            Some(Some((x, y))) => (saturating(a + x), saturating(r + y)),
            _ => (a, r),
        }
    }
}

/// The lines of a `--numstat` listing that carry anything.
pub open spec fn spec_numstat_lines(s: Seq<char>) -> Seq<Seq<char>> {
    spec_lines(s).filter(|line: Seq<char>| spec_trim(line).len() > 0)
}

/// What an unreadable `--numstat` line is refused as.
pub open spec fn spec_unreadable_numstat(from: Seq<char>, to: Seq<char>, line: Seq<char>) -> Seq<
    char,
> {
    "git diff --numstat "@ + from + " "@ + to + " printed "@ + text::spec_debug_quoted(line)
        + ", which is not a count of lines and a path"@
}

fn numstat_line(line: &str) -> (r: Option<Option<(u64, u64)>>)
    ensures
        match r {
            None => spec_numstat_line(line@) is None,
            Some(None) => spec_numstat_line(line@) == Some(None::<(nat, nat)>),
            Some(Some((x, y))) => spec_numstat_line(line@) == Some(Some((x as nat, y as nat))),
        },
{
    let (added, rest) = match text::split_once(line, '\t') {
        Some(parts) => parts,
        None => return None,
    };
    let (removed, _path) = match text::split_once(&rest, '\t') {
        Some(parts) => parts,
        None => return None,
    };
    if text::str_eq(&added, "-") && text::str_eq(&removed, "-") {
        return Some(None);
    }
    let x = match text::parse_unsigned(&added) {
        Some(x) => x,
        None => return None,
    };
    let y = match text::parse_unsigned(&removed) {
        Some(y) => y,
        None => return None,
    };
    Some(Some((x, y)))
}

/// The lines two commits differ by, from the answer to [`line_change_args`]: a
/// binary file is skipped rather than counted as nought, each sum saturates, and a
/// line that is not two counts and a path refuses the whole listing.
pub fn line_change(from: &str, to: &str, answer: Output) -> (r: Result<Lines>)
    ensures
        answer.status != 0 ==> r is Err && spec_refused(
            r->Err_0,
            spec_failed(spec_line_change_args(from@, to@), answer),
        ),
        answer.status == 0 ==> match spec_first_unreadable(spec_numstat_lines(answer.stdout@)) {
            Some(line) => r is Err && spec_refused(
                r->Err_0,
                spec_unreadable_numstat(from@, to@, line),
            ),
            None => r is Ok && r.unwrap().added == spec_line_totals(
                spec_numstat_lines(answer.stdout@),
            ).0 && r.unwrap().removed == spec_line_totals(spec_numstat_lines(answer.stdout@)).1,
        },
{
    let args = line_change_args(from, to);
    let kept = checked(&args, answer)?;
    let all = text::lines(&kept.stdout);
    let ghost listed = spec_numstat_lines(kept.stdout@);
    let mut carrying: Vec<String> = Vec::new();
    let mut k: usize = 0;
    while k < all.len()
        invariant
            k <= all@.len(),
            views(carrying@) == views(all@.take(k as int)).filter(
                |line: Seq<char>| spec_trim(line).len() > 0,
            ),
        decreases all.len() - k,
    {
        proof {
            assert(views(all@.take(k + 1)) =~= views(all@.take(k as int)).push(all@[k as int]@));
            views(all@.take(k as int)).lemma_filter_push(
                all@[k as int]@,
                |line: Seq<char>| spec_trim(line).len() > 0,
            );
        }
        if !text::is_blank(&all[k]) {
            carrying.push(all[k].clone());
            proof {
                assert(views(carrying@) =~= views(carrying@.drop_last()).push(all@[k as int]@));
            }
        }
        k = k + 1;
    }
    proof {
        assert(all@.take(all@.len() as int) =~= all@);
        assert(views(carrying@) == listed);
    }
    let mut added: u64 = 0;
    let mut removed: u64 = 0;
    let mut i: usize = 0;
    while i < carrying.len()
        invariant
            answer.status == 0,
            listed == spec_numstat_lines(answer.stdout@),
            i <= carrying@.len(),
            views(carrying@) == listed,
            spec_first_unreadable(listed.take(i as int)) is None,
            spec_line_totals(listed.take(i as int)) == (added as nat, removed as nat),
        decreases carrying.len() - i,
    {
        proof {
            assert(listed.take(i + 1).drop_last() =~= listed.take(i as int));
            assert(listed.take(i + 1).last() == carrying@[i as int]@);
        }
        match numstat_line(&carrying[i]) {
            None => {
                proof {
                    lemma_first_unreadable_stays(listed, i as int + 1);
                }
                let mut reason = text::concat3("git diff --numstat ", from, " ");
                reason.append(to);
                reason.append(" printed ");
                let quoted = text::debug_quoted(&carrying[i]);
                reason.append(&quoted);
                reason.append(", which is not a count of lines and a path");
                return Err(Error::Invalid { reason });
            },
            Some(None) => {},
            Some(Some((x, y))) => {
                added = added.saturating_add(x);
                removed = removed.saturating_add(y);
            },
        }
        i = i + 1;
    }
    proof {
        assert(listed.take(listed.len() as int) =~= listed);
    }
    Ok(Lines { added, removed })
}

/// Once a prefix of a listing has an unreadable line, so does the whole listing, and
/// it is the same line.
proof fn lemma_first_unreadable_stays(lines: Seq<Seq<char>>, n: int)
    requires
        0 <= n <= lines.len(),
        spec_first_unreadable(lines.take(n)) is Some,
    ensures
        spec_first_unreadable(lines) == spec_first_unreadable(lines.take(n)),
    decreases lines.len() - n,
{
    if n < lines.len() {
        assert(lines.take(n + 1).drop_last() =~= lines.take(n));
        lemma_first_unreadable_stays(lines, n + 1);
    } else {
        assert(lines.take(n) =~= lines);
    }
}

/// What one commit records, in the facts two copies of a branch are told apart by.
#[derive(Debug, Clone, PartialEq, Eq)]
pub struct Shape {
    /// The tree it records, which is its content.
    pub tree: String,
    /// Its parents, as git prints them: space-separated, and empty for a root commit.
    pub parents: String,
    /// When it was committed, in ISO 8601.
    pub committed: String,
    /// Its subject.
    pub subject: String,
}

/// The four NUL-separated fields of [`shape_of_args`]'s answer, once the trailing
/// newlines are off: `splitn(4, '\0')`, so the subject keeps any NUL after the third.
pub open spec fn spec_shape_fields(printed: Seq<char>) -> Option<
    (Seq<char>, Seq<char>, Seq<char>, Seq<char>),
> {
    let value = text::spec_trim_end_by(printed, text::either('\n', '\n'));
    match text::spec_split_once(value, '\0') {
        Some((tree, a)) => match text::spec_split_once(a, '\0') {
            Some((parents, b)) => match text::spec_split_once(b, '\0') {
                Some((committed, subject)) => Some((tree, parents, committed, subject)),
                None => None,
            },
            None => None,
        },
        None => None,
    }
}

/// What a commit records, read out of the repository that holds it: the answer to
/// [`shape_of_args`], refused by name where the four fields did not all arrive.
pub fn shape_of(cwd: &str, reference: &str, answer: Output) -> (r: Result<Shape>)
    ensures
        answer.status != 0 ==> r is Err && spec_refused(
            r->Err_0,
            spec_failed(spec_shape_of_args(reference@), answer),
        ),
        answer.status == 0 ==> match spec_shape_fields(answer.stdout@) {
            Some((tree, parents, committed, subject)) => r is Ok && r.unwrap().tree@ == tree
                && r.unwrap().parents@ == parents && r.unwrap().committed@ == committed
                && r.unwrap().subject@ == subject,
            None => r is Err && spec_refused(
                r->Err_0,
                "git log -1 "@ + reference@ + " in "@ + cwd@
                    + " printed no tree, parents, date, and subject: "@ + text::spec_debug_quoted(
                    answer.stdout@,
                ),
            ),
        },
{
    let args = shape_of_args(reference);
    let kept = checked(&args, answer)?;
    let value = text::trim_end_either(&kept.stdout, '\n', '\n');
    let fields = match text::split_once(&value, '\0') {
        Some((tree, a)) => match text::split_once(&a, '\0') {
            Some((parents, b)) => match text::split_once(&b, '\0') {
                Some((committed, subject)) => Some((tree, parents, committed, subject)),
                None => None,
            },
            None => None,
        },
        None => None,
    };
    match fields {
        Some((tree, parents, committed, subject)) => Ok(Shape { tree, parents, committed, subject }),
        None => {
            let mut reason = text::concat3("git log -1 ", reference, " in ");
            reason.append(cwd);
            reason.append(" printed no tree, parents, date, and subject: ");
            let quoted = text::debug_quoted(&kept.stdout);
            reason.append(&quoted);
            Err(Error::Invalid { reason })
        },
    }
}

/// When a ref's commit was made, in whole seconds since the epoch: the answer to
/// [`committed_at_args`] where it succeeded and is a number.
pub fn committed_at(ran: Option<&Output>) -> (r: Option<u64>)
    ensures
        match r {
            Some(seconds) => spec_succeeded(ran) && text::spec_parse_unsigned(spec_answer(ran))
                == Some(seconds as nat),
            None => !spec_succeeded(ran) || !spec_fits(
                text::spec_parse_unsigned(spec_answer(ran)),
            ),
        },
{
    match ran {
        Some(o) => {
            if !o.ok() {
                return None;
            }
            let answer = o.trimmed();
            text::parse_unsigned(&answer)
        },
        None => None,
    }
}

// ---------------------------------------------------------------------------
// Whether a base carries a commit's changes
// ---------------------------------------------------------------------------

/// The count of files git's `--shortstat` summary opens with: nothing at all is
/// nought, and anything that does not begin `<count> file` is no count.
pub open spec fn spec_file_count(summary: Seq<char>) -> Option<nat> {
    if summary.len() == 0 {
        Some(0)
    } else {
        match text::spec_split_once_at(summary, " file"@) {
            Some((count, _rest)) => text::spec_parse_unsigned(spec_trim(count)),
            None => None,
        }
    }
}

/// How many files git says two commits differ in: the answer to
/// [`counted_files_args`]. A summary no count can be read out of is refused rather
/// than rounded down, since rounding it down would say a partial listing is whole.
pub fn counted_files(from: &str, to: &str, answer: Output) -> (r: Result<u64>)
    ensures
        answer.status != 0 ==> r is Err && spec_refused(
            r->Err_0,
            spec_failed(spec_counted_files_args(from@, to@), answer),
        ),
        answer.status == 0 ==> if spec_fits(spec_file_count(spec_trim(answer.stdout@))) {
            r is Ok && r.unwrap() == spec_file_count(spec_trim(answer.stdout@)).unwrap()
        } else {
            r is Err && spec_refused(
                r->Err_0,
                "git diff --shortstat "@ + from@ + " "@ + to@
                    + " did not begin with a count of files: "@ + spec_trim(answer.stdout@),
            )
        },
{
    let args = counted_files_args(from, to);
    let kept = checked(&args, answer)?;
    let summary = kept.trimmed();
    if text::chars_of(&summary).len() == 0 {
        return Ok(0);
    }
    let count = match text::split_once_at(&summary, " file") {
        Some((count, _rest)) => {
            let count = text::trim(&count);
            text::parse_unsigned(&count)
        },
        None => None,
    };
    match count {
        Some(n) => Ok(n),
        None => {
            let mut reason = text::concat3("git diff --shortstat ", from, " ");
            reason.append(to);
            reason.append(" did not begin with a count of files: ");
            reason.append(&summary);
            Err(Error::Invalid { reason })
        },
    }
}

/// The paths a NUL-separated listing names, each as a literal pathspec so that a
/// path beginning with `:` is read as the file it names rather than as magic.
pub open spec fn spec_touched(listing: Seq<char>) -> Seq<Seq<char>> {
    text::spec_split(listing, '\0').filter(|path: Seq<char>| path.len() > 0).map_values(
        |path: Seq<char>| ":(literal)"@ + path,
    )
}

/// Every path the answer to [`touched_args`] lists, as a literal pathspec.
pub fn touched_paths(listing: &str) -> (paths: Vec<String>)
    ensures
        views(paths@) == spec_touched(listing@),
{
    let pieces = text::split(listing, '\0');
    let mut paths: Vec<String> = Vec::new();
    let mut k: usize = 0;
    while k < pieces.len()
        invariant
            k <= pieces@.len(),
            views(paths@) == views(pieces@.take(k as int)).filter(
                |path: Seq<char>| path.len() > 0,
            ).map_values(|path: Seq<char>| ":(literal)"@ + path),
        decreases pieces.len() - k,
    {
        let ghost kept = views(pieces@.take(k as int)).filter(|path: Seq<char>| path.len() > 0);
        proof {
            assert(views(pieces@.take(k + 1)) =~= views(pieces@.take(k as int)).push(
                pieces@[k as int]@,
            ));
            views(pieces@.take(k as int)).lemma_filter_push(
                pieces@[k as int]@,
                |path: Seq<char>| path.len() > 0,
            );
        }
        if text::chars_of(&pieces[k]).len() > 0 {
            let ghost before = paths@;
            paths.push(text::concat(":(literal)", &pieces[k]));
            proof {
                assert(views(paths@) =~= views(before).push(":(literal)"@ + pieces@[k as int]@));
                assert(kept.push(pieces@[k as int]@).map_values(
                    |path: Seq<char>| ":(literal)"@ + path,
                ) =~= kept.map_values(|path: Seq<char>| ":(literal)"@ + path).push(
                    ":(literal)"@ + pieces@[k as int]@,
                ));
            }
        }
        k = k + 1;
    }
    proof {
        assert(pieces@.take(pieces@.len() as int) =~= pieces@);
    }
    paths
}

/// The question that settles whether `base` carries everything `commit` changed:
/// where the listing of touched paths and git's own count of them disagree, only
/// the whole trees can be compared ([`trees_differ_args`]); where nothing was
/// touched there is nothing to ask; otherwise the two are compared over exactly
/// those paths.
pub fn carry_question(commit: &str, base: &str, touched: &[String], counted: u64) -> (q: Option<
    Vec<String>,
>)
    ensures
        touched@.len() != counted ==> q is Some && views(q.unwrap()@) == spec_trees_differ_args(
            base@,
            commit@,
        ),
        touched@.len() == counted && touched@.len() == 0 ==> q is None,
        touched@.len() == counted && touched@.len() > 0 ==> q is Some && views(q.unwrap()@)
            == seq!["diff"@, "--quiet"@, commit@, base@, "--"@] + views(touched@),
{
    if touched.len() as u64 != counted {
        return Some(trees_differ_args(base, commit));
    }
    if touched.len() == 0 {
        return None;
    }
    let mut args = vec![
        text::owned("diff"),
        text::owned("--quiet"),
        text::owned(commit),
        text::owned(base),
        text::owned("--"),
    ];
    let mut k: usize = 0;
    while k < touched.len()
        invariant
            k <= touched@.len(),
            views(args@) == seq!["diff"@, "--quiet"@, commit@, base@, "--"@] + views(
                touched@.take(k as int),
            ),
        decreases touched.len() - k,
    {
        let ghost before = args@;
        args.push(touched[k].clone());
        proof {
            assert(views(touched@.take(k + 1)) =~= views(touched@.take(k as int)).push(
                touched@[k as int]@,
            ));
            assert(views(args@) =~= views(before).push(touched@[k as int]@));
            assert((seq!["diff"@, "--quiet"@, commit@, base@, "--"@] + views(
                touched@.take(k as int),
            )).push(touched@[k as int]@) =~= seq!["diff"@, "--quiet"@, commit@, base@, "--"@]
                + views(touched@.take(k + 1)));
        }
        k = k + 1;
    }
    proof {
        assert(touched@.take(touched@.len() as int) =~= touched@);
    }
    Some(args)
}

/// Whether `base` is *known* to carry everything `commit` changed since its fork,
/// from the answer to [`carry_question`] — `None` where it asked nothing. One-sided
/// on purpose: `true` is established, and `false` may be an answer this could not
/// get, because every caller acts on `true` by rewriting history.
pub fn known_to_carry_changes(
    commit: &str,
    base: &str,
    touched: &[String],
    counted: u64,
    answer: Option<&Output>,
) -> (r: Result<bool>)
    requires
        touched@.len() != counted || touched@.len() > 0 ==> answer is Some,
    ensures
        touched@.len() != counted ==> spec_by_status(
            *answer.unwrap(),
            true,
            "git diff "@ + base@ + " "@ + commit@ + " failed: "@ + spec_diagnostic(
                *answer.unwrap(),
            ),
            r,
        ),
        touched@.len() == counted && touched@.len() == 0 ==> r == Ok::<bool, Error>(true),
        touched@.len() == counted && touched@.len() > 0 ==> spec_by_status(
            *answer.unwrap(),
            true,
            "git diff "@ + commit@ + " "@ + base@ + " over "@ + text::spec_decimal(
                touched@.len() as nat,
            ) + " paths failed: "@ + spec_diagnostic(*answer.unwrap()),
            r,
        ),
{
    if touched.len() as u64 != counted {
        let compared = match answer {
            Some(o) => o,
            None => return Ok(false),
        };
        let differ = trees_differ(base, commit, compared)?;
        return Ok(!differ);
    }
    if touched.len() == 0 {
        return Ok(true);
    }
    let compared = match answer {
        Some(o) => o,
        None => return Ok(false),
    };
    let mut reason = text::concat3("git diff ", commit, " ");
    reason.append(base);
    reason.append(" over ");
    let n = text::decimal(touched.len() as u64);
    reason.append(&n);
    reason.append(" paths failed: ");
    let diagnostic = compared.diagnostic();
    reason.append(&diagnostic);
    by_status(compared, true, reason)
}

// ---------------------------------------------------------------------------
// Bringing a ref into a branch
// ---------------------------------------------------------------------------

/// What conflicted: the paths git left unmerged, never none, and the hunks it
/// rendered for them.
#[derive(Debug)]
pub struct Conflict {
    paths: Vec<String>,
    hunks: String,
}

impl View for Conflict {
    type V = (Seq<Seq<char>>, Seq<char>);

    closed spec fn view(&self) -> (Seq<Seq<char>>, Seq<char>) {
        (views(self.paths@), self.hunks@)
    }
}

impl Clone for Conflict {
    fn clone(&self) -> (c: Self)
        ensures
            c@.0.len() == self@.0.len(),
    {
        proof {
            use_type_invariant(self);
        }
        Conflict { paths: self.paths.clone(), hunks: self.hunks.clone() }
    }
}

impl Conflict {
    #[verifier::type_invariant]
    spec fn names_a_path(self) -> bool {
        self.paths@.len() > 0
    }

    /// The paths git left unmerged, in the order it listed them. Never empty.
    pub fn paths(&self) -> (out: &[String])
        ensures
            views(out@) == self@.0,
            out@.len() > 0,
    {
        proof {
            use_type_invariant(self);
        }
        self.paths.as_slice()
    }

    /// The conflicting hunks, as git renders them; empty where it would not.
    pub fn hunks(&self) -> (out: &str)
        ensures
            out@ == self@.1,
    {
        self.hunks.as_str()
    }
}

/// What one attempt to bring a ref into a branch did.
#[derive(Debug, Clone)]
pub enum Integrated {
    /// The branch carries it now.
    Settled,
    /// It conflicted, and the branch is as it was found.
    Conflicted(Conflict),
}

/// The paths a NUL-separated listing names.
pub open spec fn spec_named_paths(listing: Seq<char>) -> Seq<Seq<char>> {
    text::spec_split(listing, '\0').filter(|path: Seq<char>| path.len() > 0)
}

/// What git left unmerged in a tree it has just stopped in, from the answers to
/// [`unmerged_args`] and [`hunks_args`]; `None` where it left nothing unmerged, which
/// is a failure that is not a conflict. The hunks are best effort: a rendering git
/// would not give leaves them empty.
pub fn conflict_in(unmerged: &Output, rendered: Option<&Output>) -> (r: Option<Conflict>)
    ensures
        match r {
            Some(c) => unmerged.status == 0 && c@.0 == spec_named_paths(unmerged.stdout@)
                && c@.1 == (if spec_succeeded(rendered) {
                rendered.unwrap().stdout@
            } else {
                seq![]
            }),
            None => unmerged.status != 0 || spec_named_paths(unmerged.stdout@).len() == 0,
        },
{
    if !unmerged.ok() {
        return None;
    }
    let pieces = text::split(&unmerged.stdout, '\0');
    let mut paths: Vec<String> = Vec::new();
    let mut k: usize = 0;
    while k < pieces.len()
        invariant
            k <= pieces@.len(),
            views(paths@) == views(pieces@.take(k as int)).filter(
                |path: Seq<char>| path.len() > 0,
            ),
        decreases pieces.len() - k,
    {
        proof {
            assert(views(pieces@.take(k + 1)) =~= views(pieces@.take(k as int)).push(
                pieces@[k as int]@,
            ));
            views(pieces@.take(k as int)).lemma_filter_push(
                pieces@[k as int]@,
                |path: Seq<char>| path.len() > 0,
            );
        }
        if text::chars_of(&pieces[k]).len() > 0 {
            paths.push(pieces[k].clone());
            proof {
                assert(views(paths@) =~= views(paths@.drop_last()).push(pieces@[k as int]@));
            }
        }
        k = k + 1;
    }
    proof {
        assert(pieces@.take(pieces@.len() as int) =~= pieces@);
    }
    if paths.len() == 0 {
        return None;
    }
    let hunks = match rendered {
        Some(o) => if o.ok() {
            o.stdout.clone()
        } else {
            String::new()
        },
        None => String::new(),
    };
    Some(Conflict { paths, hunks })
}

/// What a replay came to, from its own answer (to [`rebase_onto_args`]) and what
/// [`conflict_in`] found before it was aborted: settled where git succeeded, a
/// conflict where one stood, and a refusal for every other failure, so an invalid
/// ref is never mistaken for a conflict.
pub fn rebase_onto(
    onto: &str,
    upstream: &str,
    branch: &str,
    replayed: &Output,
    conflict: Option<Conflict>,
) -> (r: Result<Integrated>)
    ensures
        replayed.status == 0 ==> r matches Ok(Integrated::Settled),
        replayed.status != 0 && conflict is Some ==> (r matches Ok(Integrated::Conflicted(c)) && c
            == conflict.unwrap()),
        replayed.status != 0 && conflict is None ==> r is Err && spec_refused(
            r->Err_0,
            "git rebase --onto "@ + onto@ + " "@ + upstream@ + " "@ + branch@ + " failed: "@
                + spec_diagnostic(*replayed),
        ),
{
    if replayed.ok() {
        return Ok(Integrated::Settled);
    }
    match conflict {
        Some(c) => Ok(Integrated::Conflicted(c)),
        None => {
            let mut reason = text::concat3("git rebase --onto ", onto, " ");
            reason.append(upstream);
            reason.append(" ");
            reason.append(branch);
            reason.append(" failed: ");
            let diagnostic = replayed.diagnostic();
            reason.append(&diagnostic);
            Err(Error::Invalid { reason })
        },
    }
}

/// What a merge came to, from its own answer (to [`merge_into_branch_args`]) and what
/// [`conflict_in`] found: a conflict is reported rather than raised, and every other
/// failure is refused.
pub fn merge_into_branch(reference: &str, merged: &Output, conflict: Option<Conflict>) -> (r: Result<
    Integrated,
>)
    ensures
        merged.status == 0 ==> r matches Ok(Integrated::Settled),
        merged.status != 0 && conflict is Some ==> (r matches Ok(Integrated::Conflicted(c)) && c
            == conflict.unwrap()),
        merged.status != 0 && conflict is None ==> r is Err && spec_refused(
            r->Err_0,
            "git merge "@ + reference@ + " failed: "@ + spec_diagnostic(*merged),
        ),
{
    if merged.ok() {
        return Ok(Integrated::Settled);
    }
    match conflict {
        Some(c) => Ok(Integrated::Conflicted(c)),
        None => {
            let mut reason = text::concat3("git merge ", reference, " failed: ");
            let diagnostic = merged.diagnostic();
            reason.append(&diagnostic);
            Err(Error::Invalid { reason })
        },
    }
}

// ---------------------------------------------------------------------------
// Pushing
// ---------------------------------------------------------------------------

/// What a push did, in the form git reports rather than in the prose beside it. Either
/// way it keeps everything the push wrote: a pre-push hook's run of the repository's
/// gate is the merge path's only verification evidence.
#[derive(Debug, Clone)]
pub enum Pushed {
    /// git took every ref it was given.
    Accepted {
        /// Everything the push wrote.
        output: String,
    },
    /// git did not.
    Refused {
        /// Everything the push wrote.
        output: String,
        /// The remote refs it declined to update.
        refs: Vec<String>,
    },
}

/// The remote ref a `--porcelain` line says git declined: the line is
/// `!\t<from>:<to>\t<summary>`, and a ref name cannot hold a colon, so `<to>` is what
/// follows the first one.
pub open spec fn spec_refused_ref(line: Seq<char>) -> Option<Seq<char>> {
    match text::spec_split_once(line, '\t') {
        Some((flag, rest)) => if flag == "!"@ {
            match text::spec_split_once(spec_first_field(rest, '\t'), ':') {
                Some((_from, to)) => Some(to),
                None => None,
            }
        } else {
            None
        },
        None => None,
    }
}

/// Every ref a `--porcelain` listing says git declined, in order.
pub open spec fn spec_refused_refs(lines: Seq<Seq<char>>) -> Seq<Seq<char>>
    decreases lines.len(),
{
    if lines.len() == 0 {
        seq![]
    } else {
        match spec_refused_ref(lines.last()) {
            Some(to) => spec_refused_refs(lines.drop_last()).push(to),
            None => spec_refused_refs(lines.drop_last()),
        }
    }
}

fn refused_ref(line: &str) -> (r: Option<String>)
    ensures
        text::opt_view(r) == spec_refused_ref(line@),
{
    match text::split_once(line, '\t') {
        Some((flag, rest)) => {
            if !text::str_eq(&flag, "!") {
                return None;
            }
            let field = first_field(&rest, '\t');
            match text::split_once(&field, ':') {
                Some((_from, to)) => Some(to),
                None => None,
            }
        },
        None => None,
    }
}

/// The remote refs a `--porcelain` push reported it declined to update.
pub fn refused_refs(porcelain: &str) -> (refs: Vec<String>)
    ensures
        views(refs@) == spec_refused_refs(spec_lines(porcelain@)),
{
    let lines = text::lines(porcelain);
    let mut refs: Vec<String> = Vec::new();
    let mut k: usize = 0;
    while k < lines.len()
        invariant
            k <= lines@.len(),
            views(refs@) == spec_refused_refs(views(lines@.take(k as int))),
        decreases lines.len() - k,
    {
        proof {
            assert(views(lines@.take(k + 1)).drop_last() =~= views(lines@.take(k as int)));
            assert(views(lines@.take(k + 1)).last() == lines@[k as int]@);
        }
        match refused_ref(&lines[k]) {
            Some(to) => {
                let ghost before = refs@;
                refs.push(to);
                proof {
                    assert(views(refs@) =~= views(before).push(refs@.last()@));
                }
            },
            None => {},
        }
        k = k + 1;
    }
    proof {
        assert(lines@.take(lines@.len() as int) =~= lines@);
    }
    refs
}

/// The summary of the first line a `--porcelain` listing declines a ref on: the
/// third tab-separated field of the first line that begins `!\t`.
pub open spec fn spec_refusal(lines: Seq<Seq<char>>) -> Option<Seq<char>>
    decreases lines.len(),
{
    if lines.len() == 0 {
        None
    } else if text::spec_starts_with(lines[0], "!\t"@) {
        let fields = text::spec_split(lines[0], '\t');
        if fields.len() > 2 {
            Some(fields[2])
        } else {
            None
        }
    } else {
        spec_refusal(lines.drop_first())
    }
}

impl Pushed {
    /// What git's answer to a push says: accepted where it succeeded, and otherwise
    /// refused with the refs the porcelain names. Both keep everything it wrote.
    pub fn from_output(output: &Output) -> (p: Pushed)
        ensures
            output.status == 0 ==> (p matches Pushed::Accepted { output: o } && o@
                == output.stdout@ + output.stderr@),
            output.status != 0 ==> (p matches Pushed::Refused { output: o, refs } && o@
                == output.stdout@ + output.stderr@ && views(refs@) == spec_refused_refs(
                spec_lines(output.stdout@),
            )),
    {
        if output.ok() {
            Pushed::Accepted { output: output.combined() }
        } else {
            Pushed::Refused { refs: refused_refs(&output.stdout), output: output.combined() }
        }
    }

    /// Whether git accepted the push whole.
    pub fn accepted(&self) -> (b: bool)
        ensures
            b == (*self is Accepted),
    {
        matches!(self, Pushed::Accepted { .. })
    }

    /// Everything the push wrote, porcelain and diagnostics together.
    pub fn output(&self) -> (out: &str)
        ensures
            out@ == (match *self {
                Pushed::Accepted { output } => output@,
                Pushed::Refused { output, .. } => output@,
            }),
    {
        match self {
            Pushed::Accepted { output } => output.as_str(),
            Pushed::Refused { output, .. } => output.as_str(),
        }
    }

    /// Whether git declined to update one particular remote branch, spelled as git
    /// spells it in the porcelain: `refs/heads/<branch>`.
    pub fn refused_branch(&self, branch: &str) -> (b: bool)
        ensures
            b == (match *self {
                Pushed::Accepted { .. } => false,
                Pushed::Refused { refs, .. } => views(refs@).contains("refs/heads/"@ + branch@),
            }),
    {
        match self {
            Pushed::Accepted { .. } => false,
            Pushed::Refused { refs, .. } => {
                let reference = text::concat("refs/heads/", branch);
                text::contains_text(refs, &reference)
            },
        }
    }

    /// Why the push was refused, as git's own per-ref summary, for a human to read;
    /// never classified on.
    pub fn refusal(&self) -> (r: Option<String>)
        ensures
            text::opt_view(r) == (match *self {
                Pushed::Accepted { .. } => None,
                Pushed::Refused { output, .. } => spec_refusal(spec_lines(output@)),
            }),
    {
        match self {
            Pushed::Accepted { .. } => None,
            Pushed::Refused { output, .. } => refusal_in(output),
        }
    }
}

fn refusal_in(output: &str) -> (r: Option<String>)
    ensures
        text::opt_view(r) == spec_refusal(spec_lines(output@)),
{
    let lines = text::lines(output);
    let mut k: usize = 0;
    proof {
        assert(views(lines@).skip(0) =~= views(lines@));
    }
    while k < lines.len()
        invariant
            k <= lines@.len(),
            views(lines@) == spec_lines(output@),
            spec_refusal(views(lines@)) == spec_refusal(views(lines@).skip(k as int)),
        decreases lines.len() - k,
    {
        let ghost rest = views(lines@).skip(k as int);
        proof {
            assert(rest[0] == lines@[k as int]@);
            assert(rest.drop_first() =~= views(lines@).skip(k + 1));
        }
        if text::str_starts_with(&lines[k], "!\t") {
            let fields = text::split(&lines[k], '\t');
            if fields.len() > 2 {
                return Some(fields[2].clone());
            }
            return None;
        }
        k = k + 1;
    }
    None
}

/// Push a branch whose history was rewritten, replacing exactly the commit last seen
/// there: the lease goes in ahead of everything else. `None` is an ordinary push.
pub fn push_replacing(branch: &str, remote: &str, replacing: Option<&str>) -> (args: Vec<String>)
    ensures
        views(args@) == match replacing {
            Some(seen) => seq![
                "push"@,
                "--force-with-lease="@ + branch@ + ":"@ + seen@,
                "--porcelain"@,
                remote@,
                branch@,
            ],
            None => spec_push(branch@, remote@),
        },
{
    match replacing {
        Some(seen) => {
            let lease = text::concat4("--force-with-lease=", branch, ":", seen);
            let args = vec![
                text::owned("push"),
                lease,
                text::owned("--porcelain"),
                text::owned(remote),
                text::owned(branch),
            ];
            proof {
                assert(views(args@) =~= seq![
                    "push"@,
                    "--force-with-lease="@ + branch@ + ":"@ + seen@,
                    "--porcelain"@,
                    remote@,
                    branch@,
                ]);
            }
            args
        },
        None => push(branch, remote),
    }
}

// ---------------------------------------------------------------------------
// What a remote has
// ---------------------------------------------------------------------------

/// A commit id: 40 hexadecimal characters for SHA-1 or 64 for SHA-256.
pub open spec fn spec_is_object_id(value: Seq<char>) -> bool {
    (value.len() == 40 || value.len() == 64) && forall|i: int|
        0 <= i < value.len() ==> text::spec_is_ascii_hex(#[trigger] value[i])
}

/// A commit id, checked where it arrives from outside this process; the only way to
/// make one is [`ObjectId::parse`].
#[derive(Debug)]
pub struct ObjectId(String);

impl Clone for ObjectId {
    fn clone(&self) -> (c: Self)
        ensures
            c@ == self@,
    {
        proof {
            use_type_invariant(self);
        }
        ObjectId(self.0.clone())
    }
}

impl View for ObjectId {
    type V = Seq<char>;

    closed spec fn view(&self) -> Seq<char> {
        self.0@
    }
}

impl ObjectId {
    #[verifier::type_invariant]
    spec fn is_one(self) -> bool {
        spec_is_object_id(self.0@)
    }

    /// The id, if this is one at all: a complete SHA-1 or SHA-256 id in hexadecimal.
    pub fn parse(value: &str) -> (r: Option<ObjectId>)
        ensures
            match r {
                Some(id) => spec_is_object_id(value@) && id@ == value@,
                None => !spec_is_object_id(value@),
            },
    {
        let chars = text::chars_of(value);
        if chars.len() != 40 && chars.len() != 64 {
            return None;
        }
        let mut i: usize = 0;
        while i < chars.len()
            invariant
                i <= chars@.len(),
                chars@ == value@,
                forall|j: int| 0 <= j < i ==> text::spec_is_ascii_hex(#[trigger] chars@[j]),
            decreases chars.len() - i,
        {
            if !text::is_ascii_hex(chars[i]) {
                return None;
            }
            i = i + 1;
        }
        Some(ObjectId(text::owned(value)))
    }

    /// The id as git spells it.
    pub fn as_str(&self) -> (out: &str)
        ensures
            out@ == self@,
            spec_is_object_id(out@),
    {
        proof {
            use_type_invariant(self);
        }
        self.0.as_str()
    }
}

/// What a remote has for one branch, as it answers now.
#[derive(Debug, Clone)]
pub enum RemoteTip {
    /// The remote answered, and the branch is at this commit.
    At(ObjectId),
    /// The remote answered, and has no branch of that name.
    Absent,
    /// The remote could not be asked, so nothing about it is known here.
    Unknown,
}

/// The one object id a listing advertises for one ref: exactly one line that is not
/// blank, `<id>\t<ref>`, naming the ref asked for, with an id that is one.
pub open spec fn spec_advertised(listing: Seq<char>, reference: Seq<char>) -> Option<Seq<char>> {
    let lines = spec_lines(listing).filter(|line: Seq<char>| spec_trim(line).len() > 0);
    if lines.len() != 1 {
        None
    } else {
        match text::spec_split_once(lines[0], '\t') {
            Some((id, named)) => if named == reference && spec_is_object_id(id) {
                Some(id)
            } else {
                None
            },
            None => None,
        }
    }
}

/// The one object id a listing advertises for one ref, if that is what it is; half
/// of an answer is not a fact to decide a lease on.
pub fn advertised(listing: &str, reference: &str) -> (r: Option<ObjectId>)
    ensures
        match r {
            Some(id) => spec_advertised(listing@, reference@) == Some(id@),
            None => spec_advertised(listing@, reference@) is None,
        },
{
    let all = text::lines(listing);
    let mut carrying: Vec<String> = Vec::new();
    let mut k: usize = 0;
    while k < all.len()
        invariant
            k <= all@.len(),
            views(carrying@) == views(all@.take(k as int)).filter(
                |line: Seq<char>| spec_trim(line).len() > 0,
            ),
        decreases all.len() - k,
    {
        proof {
            assert(views(all@.take(k + 1)) =~= views(all@.take(k as int)).push(all@[k as int]@));
            views(all@.take(k as int)).lemma_filter_push(
                all@[k as int]@,
                |line: Seq<char>| spec_trim(line).len() > 0,
            );
        }
        if !text::is_blank(&all[k]) {
            carrying.push(all[k].clone());
            proof {
                assert(views(carrying@) =~= views(carrying@.drop_last()).push(all@[k as int]@));
            }
        }
        k = k + 1;
    }
    proof {
        assert(all@.take(all@.len() as int) =~= all@);
    }
    if carrying.len() != 1 {
        return None;
    }
    match text::split_once(&carrying[0], '\t') {
        Some((id, named)) => {
            if !text::str_eq(&named, reference) {
                return None;
            }
            ObjectId::parse(&id)
        },
        None => None,
    }
}

/// Where a remote has a branch, from the answer to [`remote_tip_args`], whose exit
/// status separates the three answers: `0` a branch it has (if what it printed is an
/// id), `2` a remote that answered and has none, anything else a remote that could
/// not be reached or would not say.
pub fn remote_tip(branch: &str, listing: &Output) -> (t: RemoteTip)
    ensures
        listing.status == 0 ==> match spec_advertised(listing.stdout@, "refs/heads/"@ + branch@) {
            Some(id) => t matches RemoteTip::At(found) && found@ == id,
            None => t is Unknown,
        },
        listing.status == 2 ==> t is Absent,
        listing.status != 0 && listing.status != 2 ==> t is Unknown,
{
    if listing.status == 0 {
        let reference = text::concat("refs/heads/", branch);
        match advertised(&listing.stdout, &reference) {
            Some(id) => RemoteTip::At(id),
            None => RemoteTip::Unknown,
        }
    } else if listing.status == 2 {
        RemoteTip::Absent
    } else {
        RemoteTip::Unknown
    }
}

/// Every remote the repository has configured: the non-blank lines of the answer to
/// [`remotes_args`], trimmed. A failure is a failure rather than an empty list.
pub fn remotes(answer: Output) -> (r: Result<Vec<String>>)
    ensures
        match r {
            Ok(names) => answer.status == 0 && views(names@) == spec_lines(
                answer.stdout@,
            ).map_values(|line: Seq<char>| spec_trim(line)).filter(
                |name: Seq<char>| name.len() > 0,
            ),
            Err(e) => answer.status != 0 && spec_refused(
                e,
                spec_failed(spec_remotes_args(), answer),
            ),
        },
{
    let args = remotes_args();
    let kept = checked(&args, answer)?;
    let lines = text::lines(&kept.stdout);
    let mut names: Vec<String> = Vec::new();
    let mut k: usize = 0;
    while k < lines.len()
        invariant
            k <= lines@.len(),
            views(names@) == views(lines@.take(k as int)).map_values(
                |line: Seq<char>| spec_trim(line),
            ).filter(|name: Seq<char>| name.len() > 0),
        decreases lines.len() - k,
    {
        let name = text::trim(&lines[k]);
        proof {
            assert(views(lines@.take(k + 1)).map_values(|line: Seq<char>| spec_trim(line))
                =~= views(lines@.take(k as int)).map_values(|line: Seq<char>| spec_trim(line)).push(
                name@,
            ));
            views(lines@.take(k as int)).map_values(|line: Seq<char>| spec_trim(line)).lemma_filter_push(
                name@,
                |name: Seq<char>| name.len() > 0,
            );
        }
        if text::chars_of(&name).len() > 0 {
            let ghost before = names@;
            names.push(name);
            proof {
                assert(views(names@) =~= views(before).push(names@.last()@));
            }
        }
        k = k + 1;
    }
    proof {
        assert(lines@.take(lines@.len() as int) =~= lines@);
    }
    Ok(names)
}

// ---------------------------------------------------------------------------
// Borrowed object stores, hooks, and branch listings
// ---------------------------------------------------------------------------

/// The variable git reads a borrowed object store out of.
pub const ALTERNATE_OBJECTS: &'static str = "GIT_ALTERNATE_OBJECT_DIRECTORIES";

/// What git separates the stores in that variable with: the path-list separator of
/// the platforms this library runs git on.
pub const ALTERNATE_SEPARATOR: &'static str = ":";

/// A repository as a read is put to it: where it is, and any object store it may
/// read besides its own.
#[derive(Debug, Clone)]
pub struct Asked {
    /// Where the command runs.
    pub at: String,
    /// The object store it borrows, if any.
    pub borrowing: Option<String>,
}

/// The borrowed store as the alternates variable can carry it: none where its path
/// holds the separator.
pub open spec fn spec_lent(borrowed: Option<Seq<char>>) -> Seq<Seq<char>> {
    match borrowed {
        Some(b) => if text::spec_contains(b, ALTERNATE_SEPARATOR@) {
            seq![]
        } else {
            seq![b]
        },
        None => seq![],
    }
}

/// The environment a read runs under: git's alternate object stores, naming the
/// read's own stores first and then the borrowed one — left out where git could
/// not read it back out of the variable, since the separator is an ordinary path
/// character — and nothing at all where there is no store to name.
pub open spec fn spec_reading_also(own: Seq<Seq<char>>, borrowed: Option<Seq<char>>) -> Seq<
    (Seq<char>, Seq<char>),
> {
    let stores = own + spec_lent(borrowed);
    if stores.len() == 0 {
        seq![]
    } else {
        seq![(ALTERNATE_OBJECTS@, spec_join(stores, ALTERNATE_SEPARATOR@))]
    }
}

impl Asked {
    /// A repository asked while it may also read `objects`.
    pub fn borrowing(at: &str, objects: Option<&str>) -> (a: Asked)
        ensures
            a.at@ == at@,
            text::opt_view(a.borrowing) == text::opt_str_view(objects),
    {
        Asked {
            at: text::owned(at),
            borrowing: match objects {
                Some(o) => Some(text::owned(o)),
                None => None,
            },
        }
    }

    /// Where the command runs.
    pub fn path(&self) -> (out: &str)
        ensures
            out@ == self.at@,
    {
        self.at.as_str()
    }

    /// The environment one read runs under, with `own` stores ahead of the
    /// borrowed one.
    pub fn reading_also(&self, own: &[String]) -> (env: Vec<(String, String)>)
        ensures
            text::pair_views(env@) == spec_reading_also(views(own@), text::opt_view(self.borrowing)),
    {
        let mut stores: Vec<String> = Vec::new();
        let mut i: usize = 0;
        while i < own.len()
            invariant
                i <= own@.len(),
                views(stores@) == views(own@).take(i as int),
            decreases own.len() - i,
        {
            let ghost before = views(stores@);
            stores.push(own[i].clone());
            proof {
                assert(views(stores@) =~= before.push(own@[i as int]@));
                assert(views(own@).take(i + 1) =~= views(own@).take(i as int).push(own@[i as int]@));
            }
            i = i + 1;
        }
        proof {
            assert(views(own@).take(own@.len() as int) =~= views(own@));
        }
        let ghost lent: Seq<Seq<char>> = spec_lent(text::opt_view(self.borrowing));
        match &self.borrowing {
            Some(b) => {
                let chars = text::chars_of(b);
                let sep = text::chars_of(ALTERNATE_SEPARATOR);
                if !text::contains(&chars, &sep) {
                    let ghost before = views(stores@);
                    stores.push(b.clone());
                    proof {
                        assert(views(stores@) =~= before + lent);
                    }
                } else {
                    proof {
                        assert(views(stores@) =~= views(own@) + lent);
                    }
                }
            },
            None => {
                proof {
                    assert(views(stores@) =~= views(own@) + lent);
                }
            },
        }
        if stores.len() == 0 {
            let env: Vec<(String, String)> = Vec::new();
            proof {
                assert(text::pair_views(env@) =~= seq![]);
            }
            return env;
        }
        let joined = text::join(&stores, ALTERNATE_SEPARATOR);
        let env = vec![(text::owned(ALTERNATE_OBJECTS), joined)];
        proof {
            assert(text::pair_views(env@) =~= seq![(ALTERNATE_OBJECTS@, spec_join(views(stores@), ALTERNATE_SEPARATOR@))]);
        }
        env
    }
}

/// A local branch exists: [`branch_exists_args`] succeeded.
pub fn branch_exists(ran: Option<&Output>) -> (b: bool)
    ensures
        b == spec_succeeded(ran),
{
    succeeded(ran)
}

/// The local branches holding commits no `origin` remote-tracking ref has:
/// `ahead` is, branch by branch, what [`unpublished_ahead`] counted for it.
pub open spec fn spec_unpublished(branches: Seq<Seq<char>>, ahead: Seq<u64>) -> Seq<Seq<char>>
    decreases branches.len(),
{
    if branches.len() == 0 {
        seq![]
    } else {
        let k = branches.len() - 1;
        let rest = spec_unpublished(branches.drop_last(), ahead.take(k));
        if ahead[k] > 0 {
            rest.push(branches[k])
        } else {
            rest
        }
    }
}

/// The local branches holding commits no `origin` remote-tracking ref has.
pub fn unpublished_branches(branches: &[String], ahead: &[u64]) -> (out: Vec<String>)
    requires
        branches@.len() == ahead@.len(),
    ensures
        views(out@) == spec_unpublished(views(branches@), ahead@),
{
    let mut out: Vec<String> = Vec::new();
    let mut i: usize = 0;
    while i < branches.len()
        invariant
            i <= branches@.len(),
            branches@.len() == ahead@.len(),
            views(out@) == spec_unpublished(views(branches@).take(i as int), ahead@.take(i as int)),
        decreases branches.len() - i,
    {
        proof {
            assert(views(branches@).take(i + 1).drop_last() =~= views(branches@).take(i as int));
            assert(ahead@.take(i + 1).take(i as int) =~= ahead@.take(i as int));
        }
        if ahead[i] > 0 {
            let ghost before = views(out@);
            out.push(branches[i].clone());
            proof {
                assert(views(out@) =~= before.push(branches@[i as int]@));
            }
        }
        i = i + 1;
    }
    proof {
        assert(views(branches@).take(branches@.len() as int) =~= views(branches@));
        assert(ahead@.take(ahead@.len() as int) =~= ahead@);
    }
    out
}

/// What a repository's own `commit-msg` hook said about a message. A repository
/// that states no policy is a case of its own rather than an acceptance.
#[derive(Debug, Clone, PartialEq, Eq)]
pub enum MessagePolicy {
    /// The repository has no executable `commit-msg` hook, so it states no policy.
    Unstated,
    /// The hook ran and accepted the message.
    Accepted,
    /// The hook ran and turned the message down, keeping everything it wrote.
    Rejected {
        /// What the hook exited with, which a rejection cannot have been nought.
        status: i32,
        /// Everything the hook wrote, both streams, whole.
        output: String,
    },
}

/// What the hook's answer comes to: no policy where there is no executable hook,
/// else accepted on a zero exit and rejected on any other, with all it wrote.
/// `ran` is the hook's run, read only where the hook is executable.
pub fn message_policy(hook_executable: bool, ran: &Output) -> (r: MessagePolicy)
    ensures
        !hook_executable ==> r is Unstated,
        hook_executable && ran.status == 0 ==> r is Accepted,
        hook_executable && ran.status != 0 ==> (r matches MessagePolicy::Rejected { status, output }
            && status == ran.status && output@ == ran.stdout@ + ran.stderr@),
{
    if !hook_executable {
        return MessagePolicy::Unstated;
    }
    if ran.status == 0 {
        MessagePolicy::Accepted
    } else {
        MessagePolicy::Rejected { status: ran.status, output: ran.combined() }
    }
}

/// The question a landing is tested by: the tree merging `commit` into `base` would
/// write, `merge-tree --write-tree <base> <commit>`.
pub open spec fn spec_merge_tree_args(base: Seq<char>, commit: Seq<char>) -> Seq<Seq<char>> {
    seq!["merge-tree"@, "--write-tree"@, base, commit]
}

/// The question a landing is tested by.
pub fn merge_tree_args(base: &str, commit: &str) -> (args: Vec<String>)
    ensures
        views(args@) == spec_merge_tree_args(base@, commit@),
{
    let args = vec![text::owned("merge-tree"), text::owned("--write-tree"), text::owned(base), text::owned(commit)];
    proof {
        assert(views(args@) =~= spec_merge_tree_args(base@, commit@));
    }
    args
}

/// The tree `base` has: `rev-parse --verify <base>^{tree}`.
pub open spec fn spec_tree_args(base: Seq<char>) -> Seq<Seq<char>> {
    seq!["rev-parse"@, "--verify"@, base + "^{tree}"@]
}

/// The tree `base` has.
pub fn tree_args(base: &str) -> (args: Vec<String>)
    ensures
        views(args@) == spec_tree_args(base@),
{
    let args = vec![text::owned("rev-parse"), text::owned("--verify"), text::concat(base, "^{tree}")];
    proof {
        assert(views(args@) =~= spec_tree_args(base@));
    }
    args
}

/// The first line of some output, where it has one.
pub open spec fn spec_first_line(s: Seq<char>) -> Option<Seq<char>> {
    if text::spec_lines(s).len() > 0 {
        Some(text::spec_lines(s)[0])
    } else {
        None
    }
}

/// Whether `base` already integrates `commit`, from the merge it would write
/// (`merged`, the answer to [`merge_tree_args`]) and — only where that merge is clean
/// — the tree `base` has (`tree`, the answer to [`tree_args`]): a clean merge whose
/// tree is the base's own changes nothing, so the base carries the commit; a
/// conflicted one establishes nothing; any other failure is refused.
pub fn already_integrates(base: &str, commit: &str, merged: &Output, tree: Option<Output>) -> (r: Result<bool>)
    requires
        merged.status == 0 ==> tree is Some,
    ensures
        merged.status == 0 ==> {
            let t = tree->Some_0;
            if t.status == 0 {
                r == Ok::<bool, Error>(spec_first_line(merged.stdout@) == Some(spec_trim(t.stdout@)))
            } else {
                r is Err && spec_refused(r->Err_0, spec_failed(spec_tree_args(base@), t))
            }
        },
        merged.status == 1 ==> r == Ok::<bool, Error>(false),
        merged.status != 0 && merged.status != 1 ==> r is Err && spec_refused(
            r->Err_0,
            "git merge-tree --write-tree "@ + base@ + " "@ + commit@ + " failed: "@ + spec_diagnostic(*merged),
        ),
{
    if merged.status == 1 {
        return Ok(false);
    }
    if merged.status != 0 {
        let mut reason = text::concat3("git merge-tree --write-tree ", base, " ");
        reason.append(commit);
        reason.append(" failed: ");
        reason.append(&merged.diagnostic());
        return Err(Error::Invalid { reason });
    }
    let answered = match tree {
        Some(t) => t,
        None => return Ok(false),
    };
    let asked = tree_args(base);
    let written = checked(&asked, answered)?.trimmed();
    let lines = text::lines(&merged.stdout);
    if lines.len() == 0 {
        return Ok(false);
    }
    Ok(text::str_eq(&lines[0], &written))
}

} // verus!
