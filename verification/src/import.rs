//! Making a branch reachable from an identity's registered checkouts.
//!
//! An import writes refs and nothing else: the branch is fetched into a scratch
//! ref, judged there, and then the destination's ref is pointed at it. What it
//! decides between those git commands stands here: which name it writes, where
//! it reads the branch from, whether what was fetched is a commit at all, and
//! whether writing the name moves it forward, leaves it, or would lose work.

use vstd::prelude::*;
use crate::error::{Error, Result};
use crate::git::{self, CommitMessage, Output};
use crate::text::{self, views};
use crate::{branch, guidance, policy};

verus! {

// ---------------------------------------------------------------------------
// Names
// ---------------------------------------------------------------------------

/// The alternate name a refusal offers: `preserved/` and the branch flattened, so
/// the suggestion cannot collide with a ref somebody already has.
pub open spec fn spec_preserved(name: Seq<char>) -> Seq<char> {
    "preserved/"@ + policy::spec_branch_slug(name)
}

/// The alternate name a refusal offers for `name`.
pub fn preserved(name: &str) -> (out: String)
    ensures
        out@ == spec_preserved(name@),
{
    let slug = policy::branch_slug(name);
    text::concat("preserved/", &slug)
}

/// The import that writes `branch` under its alternate name instead.
pub open spec fn spec_import_as(branch: Seq<char>, repo: Seq<char>, name: Seq<char>) -> Seq<char> {
    guidance::spec_command(
        seq!["onevcs"@, "import"@, branch, "--repo"@, repo, "--as"@, spec_preserved(name)],
    )
}

fn import_as(branch: &str, repo: &str, name: &str) -> (out: String)
    ensures
        out@ == spec_import_as(branch@, repo@, name@),
{
    let argv = vec![
        text::owned("onevcs"),
        text::owned("import"),
        text::owned(branch),
        text::owned("--repo"),
        text::owned(repo),
        text::owned("--as"),
        preserved(name),
    ];
    proof {
        assert(views(argv@) =~= seq![
            "onevcs"@,
            "import"@,
            branch@,
            "--repo"@,
            repo@,
            "--as"@,
            spec_preserved(name@),
        ]);
    }
    guidance::command_of(&argv)
}

/// How a value git does not accept as a branch is named in a refusal.
pub open spec fn spec_not_a_ref(value: Seq<char>) -> Seq<char> {
    text::spec_debug_quoted(value) + " is not a valid branch name"@
}

/// What `--as` naming no branch is refused as.
pub open spec fn spec_bad_as(under: Seq<char>) -> Seq<char> {
    "--as "@ + spec_not_a_ref(under) + ": it is not a valid branch name"@
}

/// The local name an import writes: `under` where one is given, else the branch
/// itself. Each must be a name git accepts as a branch (`branch_valid` and
/// `under_valid` are git's answers); the branch is judged first.
pub fn name_to_write(branch: &str, branch_valid: bool, under: Option<&str>, under_valid: bool) -> (r:
    Result<String>)
    ensures
        !branch_valid ==> r is Err && git::spec_refused(r->Err_0, branch::spec_not_a_branch(branch@)),
        branch_valid ==> match under {
            None => r is Ok && r->Ok_0@ == branch@,
            Some(u) => if under_valid {
                r is Ok && r->Ok_0@ == u@
            } else {
                r is Err && git::spec_refused(r->Err_0, spec_bad_as(u@))
            },
        },
{
    if !branch_valid {
        let quoted = text::debug_quoted(branch);
        let reason = text::concat(
            &quoted,
            " is not a valid branch name; `onevcs recoverable` lists every preserved branch by name and the checkout it is in",
        );
        return Err(Error::Invalid { reason });
    }
    match under {
        None => Ok(text::owned(branch)),
        Some(u) => {
            if under_valid {
                Ok(text::owned(u))
            } else {
                let quoted = text::debug_quoted(u);
                let reason = text::concat4(
                    "--as ",
                    &quoted,
                    " is not a valid branch name",
                    ": it is not a valid branch name",
                );
                proof {
                    assert(reason@ =~= spec_bad_as(u@));
                }
                Err(Error::Invalid { reason })
            }
        },
    }
}

/// What importing over the branch a checkout has checked out is refused as.
pub open spec fn spec_checked_out(
    destination: Seq<char>,
    name: Seq<char>,
    branch: Seq<char>,
    repo: Seq<char>,
) -> Seq<char> {
    destination + " has "@ + text::spec_debug_quoted(name)
        + " checked out, and import only ever writes refs — moving that one would leave its working tree describing a commit the branch no longer names. Import it under another name with `"@
        + spec_import_as(branch, repo, name) + "`"@
}

/// Refuse to write the branch the destination has checked out (`current`): moving
/// that ref would leave a tree git believes is something else.
pub fn refuse_checked_out(destination: &str, current: &str, name: &str, branch: &str, repo: &str) -> (r:
    Result<()>)
    ensures
        current@ == name@ <==> r is Err,
        r is Err ==> git::spec_refused(r->Err_0, spec_checked_out(destination@, name@, branch@, repo@)),
{
    if !text::str_eq(current, name) {
        return Ok(());
    }
    let mut reason = text::owned(destination);
    reason.append(" has ");
    let quoted = text::debug_quoted(name);
    reason.append(&quoted);
    reason.append(" checked out, and import only ever writes refs — moving that one would leave its working tree describing a commit the branch no longer names. Import it under another name with `",
    );
    let command = import_as(branch, repo, name);
    reason.append(&command);
    reason.append("`");
    Err(Error::Invalid { reason })
}

// ---------------------------------------------------------------------------
// Where the branch is read from
// ---------------------------------------------------------------------------

/// Where an import read the branch from.
#[derive(Debug, Clone, PartialEq, Eq)]
pub enum Source {
    /// Another repository on this host: a run clone, or another checkout.
    Repository(String),
    /// A remote of the destination checkout, and the branch as it is named there.
    Remote {
        /// The remote git was asked: one in the destination's own `git remote`.
        remote: String,
        /// The branch on it, which `--from origin/other` may spell differently from
        /// the name the import writes.
        branch: String,
    },
}

/// How a source is named: its path, or `remote/branch`.
pub open spec fn spec_describe(source: Source) -> Seq<char> {
    match source {
        Source::Repository(path) => path@,
        Source::Remote { remote, branch } => remote@ + "/"@ + branch@,
    }
}

/// What git is handed as the thing to fetch from.
pub open spec fn spec_location(source: Source) -> Seq<char> {
    match source {
        Source::Repository(path) => path@,
        Source::Remote { remote, .. } => remote@,
    }
}

/// The branch as the source names it: the asked one for a repository.
pub open spec fn spec_source_branch(source: Source, asked: Seq<char>) -> Seq<char> {
    match source {
        Source::Repository(_) => asked,
        Source::Remote { branch, .. } => branch@,
    }
}

impl Source {
    /// How the report and every refusal name it.
    pub fn describe(&self) -> (out: String)
        ensures
            out@ == spec_describe(*self),
    {
        match self {
            Source::Repository(path) => path.clone(),
            Source::Remote { remote, branch } => text::concat3(remote, "/", branch),
        }
    }

    /// What git is handed as the thing to fetch from.
    pub fn location(&self) -> (out: String)
        ensures
            out@ == spec_location(*self),
    {
        match self {
            Source::Repository(path) => path.clone(),
            Source::Remote { remote, .. } => remote.clone(),
        }
    }

    /// The branch as the source names it.
    pub fn branch(&self, asked: &str) -> (out: String)
        ensures
            out@ == spec_source_branch(*self, asked@),
    {
        match self {
            Source::Repository(_) => text::owned(asked),
            Source::Remote { branch, .. } => branch.clone(),
        }
    }
}

/// Whether a source is `remote`'s branch `branch`.
pub open spec fn spec_is_remote(source: Source, remote: Seq<char>, branch: Seq<char>) -> bool {
    source matches Source::Remote { remote: r, branch: b } && r@ == remote && b@ == branch
}

/// What follows the first `/` of a `--from` value: the branch a `<remote>/<branch>`
/// spelling names, which git is asked to accept before [`source_of`] decides.
pub fn remote_branch_part(from: &str) -> (r: Option<String>)
    ensures
        match r {
            Some(named) => text::spec_split_once(from@, '/') is Some && text::spec_split_once(from@, '/')->Some_0.1 == named@,
            None => text::spec_split_once(from@, '/') is None,
        },
{
    match text::split_once(from, '/') {
        Some((_, named)) => Some(named),
        None => None,
    }
}

/// What a remote-qualified `--from` whose branch half is no branch is refused as.
pub open spec fn spec_bad_remote_branch(from: Seq<char>, remote: Seq<char>, named: Seq<char>) -> Seq<
    char,
> {
    "--from "@ + text::spec_debug_quoted(from) + " names remote "@ + text::spec_debug_quoted(remote)
        + " and "@ + spec_not_a_ref(named) + "; spell it `"@ + remote + "/<branch>`"@
}

/// How a destination's remotes are listed in a refusal: `none`, or joined by commas.
pub open spec fn spec_remote_list(remotes: Seq<Seq<char>>) -> Seq<char> {
    if remotes.len() == 0 {
        "none"@
    } else {
        text::spec_join(remotes, ", "@)
    }
}

/// What a `--from` that is neither a repository nor a remote is refused as.
pub open spec fn spec_unknown_from(
    from: Seq<char>,
    destination: Seq<char>,
    remotes: Seq<Seq<char>>,
    branch: Seq<char>,
) -> Seq<char> {
    "--from "@ + text::spec_debug_quoted(from)
        + " is neither a git repository on this host nor a remote of "@ + destination
        + ": its remotes are "@ + spec_remote_list(remotes)
        + ". Pass the path of a checkout or a run clone — `onevcs recoverable` reports where a preserved branch is — or a remote ref such as `origin/"@
        + branch + "`, or omit --from to search everywhere this identity keeps work"@
}

/// Where a `--from` value reads the branch from, decided by what it is: a
/// directory git calls a repository (`from_is_repo`) is one; a remote the
/// destination has is one, with the branch under its own name; `<remote>/<branch>`
/// over such a remote is that remote's branch, when git accepts the branch half
/// (`named_valid`); anything else is refused naming both readings.
pub fn source_of(
    destination: &str,
    branch: &str,
    from: &str,
    from_is_repo: bool,
    remotes: &[String],
    named_valid: bool,
) -> (r: Result<Source>)
    ensures
        from_is_repo ==> r is Ok && (r->Ok_0 matches Source::Repository(p) && p@ == from@),
        !from_is_repo && views(remotes@).contains(from@) ==> r is Ok && spec_is_remote(r->Ok_0, from@, branch@),
        !from_is_repo && !views(remotes@).contains(from@) ==> match text::spec_split_once(from@, '/') {
            Some((remote, named)) => if views(remotes@).contains(remote) {
                if named_valid {
                    r is Ok && spec_is_remote(r->Ok_0, remote, named)
                } else {
                    r is Err && git::spec_refused(r->Err_0, spec_bad_remote_branch(from@, remote, named))
                }
            } else {
                r is Err && git::spec_refused(r->Err_0, spec_unknown_from(from@, destination@, views(remotes@), branch@))
            },
            None => r is Err && git::spec_refused(r->Err_0, spec_unknown_from(from@, destination@, views(remotes@), branch@)),
        },
{
    if from_is_repo {
        return Ok(Source::Repository(text::owned(from)));
    }
    if text::contains_text(remotes, from) {
        return Ok(Source::Remote { remote: text::owned(from), branch: text::owned(branch) });
    }
    if let Some((remote, named)) = text::split_once(from, '/') {
        if text::contains_text(remotes, &remote) {
            if !named_valid {
                let mut reason = text::owned("--from ");
                let quoted = text::debug_quoted(from);
                reason.append(&quoted);
                reason.append(" names remote ");
                let quoted_remote = text::debug_quoted(&remote);
                reason.append(&quoted_remote);
                reason.append(" and ");
                let quoted_named = text::debug_quoted(&named);
                reason.append(&quoted_named);
                reason.append(" is not a valid branch name");
                reason.append("; spell it `");
                reason.append(&remote);
                reason.append("/<branch>`");
                proof {
                    assert(reason@ =~= spec_bad_remote_branch(from@, remote@, named@));
                }
                return Err(Error::Invalid { reason });
            }
            return Ok(Source::Remote { remote, branch: named });
        }
    }
    let listed = if remotes.len() == 0 {
        text::owned("none")
    } else {
        text::join(remotes, ", ")
    };
    let mut reason = text::owned("--from ");
    let quoted = text::debug_quoted(from);
    reason.append(&quoted);
    reason.append(" is neither a git repository on this host nor a remote of ");
    reason.append(destination);
    reason.append(": its remotes are ");
    reason.append(&listed);
    reason.append(". Pass the path of a checkout or a run clone — `onevcs recoverable` reports where a preserved branch is — or a remote ref such as `origin/",
    );
    reason.append(branch);
    reason.append("`, or omit --from to search everywhere this identity keeps work",
    );
    proof {
        assert(reason@ =~= spec_unknown_from(from@, destination@, views(remotes@), branch@));
    }
    Err(Error::Invalid { reason })
}

// ---------------------------------------------------------------------------
// What was fetched, and what writing it does
// ---------------------------------------------------------------------------

/// The scratch ref one import fetches into, named by a value unique to the run.
pub open spec fn spec_scratch_ref(unique: Seq<char>) -> Seq<char> {
    "refs/onevcs/import/"@ + unique
}

/// The scratch ref one import fetches into.
pub fn scratch_ref(unique: &str) -> (out: String)
    ensures
        out@ == spec_scratch_ref(unique@),
{
    text::concat("refs/onevcs/import/", unique)
}

/// The ref a local branch is held under.
pub open spec fn spec_heads_ref(name: Seq<char>) -> Seq<char> {
    "refs/heads/"@ + name
}

/// The ref a local branch is held under.
pub fn heads_ref(name: &str) -> (out: String)
    ensures
        out@ == spec_heads_ref(name@),
{
    text::concat("refs/heads/", name)
}

/// What a source with no such branch is refused as.
pub open spec fn spec_nothing_to_import(source: Source, asked: Seq<char>) -> Seq<char> {
    spec_describe(source) + " has no branch "@ + text::spec_debug_quoted(
        spec_source_branch(source, asked),
    ) + " to import; `onevcs recoverable` lists every preserved branch and the checkout it is in"@
}

/// What a fetch that left no readable commit is refused as.
pub open spec fn spec_unreadable_fetch(source: Source, asked: Seq<char>) -> Seq<char> {
    "the fetch of "@ + text::spec_debug_quoted(spec_source_branch(source, asked)) + " from "@
        + spec_describe(source) + " left no commit this build can read"@
}

/// The commit an import writes: the scratch ref's tip, where the fetch found the
/// branch (`fetched`) and the tip reads as a commit (`tip`).
pub fn fetched_tip(source: &Source, asked: &str, fetched: bool, tip: Option<String>) -> (r: Result<
    String,
>)
    ensures
        !fetched ==> r is Err && git::spec_refused(r->Err_0, spec_nothing_to_import(*source, asked@)),
        fetched && tip is None ==> r is Err && git::spec_refused(r->Err_0, spec_unreadable_fetch(*source, asked@)),
        fetched && tip is Some ==> r is Ok && r->Ok_0 == tip->Some_0,
{
    let described = source.describe();
    let named = source.branch(asked);
    let quoted = text::debug_quoted(&named);
    if !fetched {
        let reason = text::concat4(
            &described,
            " has no branch ",
            &quoted,
            " to import; `onevcs recoverable` lists every preserved branch and the checkout it is in",
        );
        return Err(Error::Invalid { reason });
    }
    match tip {
        Some(tip) => Ok(tip),
        None => {
            let mut reason = text::owned("the fetch of ");
            reason.append(&quoted);
            reason.append(" from ");
            reason.append(&described);
            reason.append(" left no commit this build can read");
            Err(Error::Invalid { reason })
        },
    }
}

/// What one import did to the name it wrote.
#[derive(Debug, Clone, Copy, PartialEq, Eq)]
pub enum Wrote {
    /// The destination had no branch of that name.
    Created,
    /// It had one, and the import moved it forward.
    FastForwarded,
    /// It had one, already at the commit the source has.
    Unchanged,
}

/// What writing the name comes to, before ancestry is asked: settled, or a move of
/// an existing name that is only a fast-forward if the fetched commit descends
/// from it.
#[derive(Debug, Clone, Copy, PartialEq, Eq)]
pub enum Write {
    /// Nothing more to ask: the name is new, or already at the commit.
    Settled(Wrote),
    /// The name holds another commit; [`refuse_a_rewrite`] decides.
    Moves,
}

/// What writing `tip` over the name the destination `held` comes to.
pub fn write_of(held: Option<&str>, tip: &str) -> (w: Write)
    ensures
        w == match held {
            None => Write::Settled(Wrote::Created),
            Some(h) => if h@ == tip@ {
                Write::Settled(Wrote::Unchanged)
            } else {
                Write::Moves
            },
        },
{
    match held {
        None => Write::Settled(Wrote::Created),
        Some(h) => {
            if text::str_eq(h, tip) {
                Write::Settled(Wrote::Unchanged)
            } else {
                Write::Moves
            }
        },
    }
}

/// The first line of a message, or nothing where it has none.
pub open spec fn spec_subject(message: Seq<char>) -> Seq<char> {
    let lines = text::spec_lines(message);
    text::spec_trim(if lines.len() > 0 { lines[0] } else { seq![] })
}

/// One commit as a rewrite refusal names it: its SHA cut to twelve characters,
/// and its subject.
pub open spec fn spec_named_commit(commit: (Seq<char>, Seq<char>)) -> Seq<char> {
    let sha = commit.0;
    sha.take(if sha.len() < 12 { sha.len() as int } else { 12 }) + " "@ + spec_subject(commit.1)
}

/// What moving a name off commits nothing imported carries is refused as.
pub open spec fn spec_rewrite_refused(
    destination: Seq<char>,
    name: Seq<char>,
    branch: Seq<char>,
    repo: Seq<char>,
    losing: Seq<(Seq<char>, Seq<char>)>,
) -> Seq<char> {
    destination + " already has "@ + text::spec_debug_quoted(name)
        + ", and importing over it is not a fast-forward: "@ + text::spec_decimal(losing.len())
        + " commit(s) it holds are on no branch this import brings. They would be lost: "@
        + text::spec_join(losing.map_values(|c: (Seq<char>, Seq<char>)| spec_named_commit(c)), "; "@)
        + ". Import under another name with `"@ + spec_import_as(branch, repo, name)
        + "`, or delete "@ + text::spec_debug_quoted(name)
        + " there first if what it holds is spent"@
}

fn named_commit(commit: &CommitMessage) -> (out: String)
    ensures
        out@ == spec_named_commit((commit.sha@, commit.message@)),
{
    let sha = text::chars_of(&commit.sha);
    let cut = if sha.len() < 12 { sha.len() } else { 12 };
    let mut out = text::string_of(&sha, 0, cut);
    proof {
        assert(out@ =~= commit.sha@.take(cut as int));
    }
    out.append(" ");
    let lines = text::lines(&commit.message);
    let first = if lines.len() > 0 { lines[0].clone() } else { String::new() };
    proof {
        if lines@.len() > 0 {
            assert(views(lines@)[0] == lines@[0]@);
        }
    }
    let subject = text::trim(&first);
    out.append(&subject);
    out
}

/// Refuse to move an existing name onto a commit that does not descend from it
/// (`descends` is git's answer), naming each commit that would go (`losing`, the
/// commits the name holds that the fetched one does not).
pub fn refuse_a_rewrite(
    descends: bool,
    destination: &str,
    name: &str,
    branch: &str,
    repo: &str,
    losing: &[CommitMessage],
) -> (r: Result<()>)
    ensures
        descends <==> r is Ok,
        !descends ==> git::spec_refused(
            r->Err_0,
            spec_rewrite_refused(destination@, name@, branch@, repo@, git::commit_views(losing@)),
        ),
{
    if descends {
        return Ok(());
    }
    let mut named: Vec<String> = Vec::new();
    let mut i: usize = 0;
    while i < losing.len()
        invariant
            i <= losing@.len(),
            views(named@) == git::commit_views(losing@).take(i as int).map_values(
                |c: (Seq<char>, Seq<char>)| spec_named_commit(c),
            ),
        decreases losing.len() - i,
    {
        let one = named_commit(&losing[i]);
        let ghost before = views(named@);
        let ghost said = one@;
        named.push(one);
        i = i + 1;
        proof {
            assert(views(named@) =~= before.push(said));
            assert(git::commit_views(losing@).take(i as int) =~= git::commit_views(losing@).take(
                (i - 1) as int,
            ).push(git::commit_views(losing@)[i - 1]));
            assert(views(named@) =~= git::commit_views(losing@).take(i as int).map_values(
                |c: (Seq<char>, Seq<char>)| spec_named_commit(c),
            ));
        }
    }
    proof {
        assert(git::commit_views(losing@).take(losing@.len() as int) =~= git::commit_views(losing@));
    }
    let lost = text::join(&named, "; ");
    let count = text::decimal(losing.len() as u64);
    let quoted = text::debug_quoted(name);
    let mut reason = text::owned(destination);
    reason.append(" already has ");
    reason.append(&quoted);
    reason.append(", and importing over it is not a fast-forward: ");
    reason.append(&count);
    reason.append(" commit(s) it holds are on no branch this import brings. They would be lost: ",
    );
    reason.append(&lost);
    reason.append(". Import under another name with `");
    let command = import_as(branch, repo, name);
    reason.append(&command);
    reason.append("`, or delete ");
    reason.append(&quoted);
    reason.append(" there first if what it holds is spent");
    Err(Error::Invalid { reason })
}

/// What one import did.
#[derive(Debug, Clone)]
pub struct Imported {
    /// The checkout the ref was written in.
    pub destination: String,
    /// The local name it was written under.
    pub name: String,
    /// Where the branch was read from.
    pub source: Source,
    /// The commit the name now points at.
    pub tip: String,
    /// What the write actually did to the name.
    pub wrote: Wrote,
}

impl Imported {
    /// The line an import reports: what the write did, the name, the destination,
    /// the source, and the commit.
    pub fn report(&self) -> (out: String)
        ensures
            out@ == match self.wrote {
                Wrote::Created => "imported"@,
                Wrote::FastForwarded => "fast-forwarded"@,
                Wrote::Unchanged => "already had"@,
            } + " "@ + self.name@ + " in "@ + self.destination@ + " from "@ + spec_describe(self.source)
                + ", at "@ + self.tip@,
    {
        let mut out = text::owned(
            match self.wrote {
                Wrote::Created => "imported",
                Wrote::FastForwarded => "fast-forwarded",
                Wrote::Unchanged => "already had",
            },
        );
        out.append(" ");
        out.append(&self.name);
        out.append(" in ");
        out.append(&self.destination);
        out.append(" from ");
        let described = self.source.describe();
        out.append(&described);
        out.append(", at ");
        out.append(&self.tip);
        out
    }
}

// ---------------------------------------------------------------------------
// One import, step by step
// ---------------------------------------------------------------------------

/// Where one import stands: which question it is waiting on git to answer.
#[derive(Debug)]
pub enum Phase {
    /// Which branch the destination has checked out.
    Current,
    /// Whether the fetch into the scratch ref found the branch.
    Fetch,
    /// Which commit the scratch ref holds.
    Tip,
    /// Which commit the name already holds, if any; `tip` is what was fetched.
    Held { tip: String },
    /// Whether the name's commit is an ancestor of `tip`.
    Ancestry { tip: String },
    /// Which commits the name holds that `tip` does not.
    Losing { tip: String },
    /// Whether pointing the name at `tip` took; `wrote` is what that does.
    Update { tip: String, wrote: Wrote },
    /// The scratch ref is being deleted; the answer is settled.
    Cleanup,
    /// Nothing more to ask.
    Finished,
}

/// What an import asks next: one git command in the destination, whose answer is
/// handed back to [`ImportRun::step`], or its answer.
#[derive(Debug)]
pub enum ImportAction {
    /// Run this git command in the destination.
    Ask(Vec<String>),
    /// The import is over.
    Finish(Result<Imported>),
}

/// One import of a branch into a destination checkout, through a scratch ref.
#[derive(Debug)]
pub struct ImportRun {
    /// The checkout the ref is written in.
    pub destination: String,
    /// The local name it is written under.
    pub name: String,
    /// The branch asked for.
    pub branch: String,
    /// The checkout `--repo` named, as a refusal names it back.
    pub repo: String,
    /// Where the branch is read from.
    pub source: Source,
    /// The scratch ref the fetch writes.
    pub scratch: String,
    /// What it waits on.
    pub phase: Phase,
    /// Whether the fetch into the scratch ref has been asked for.
    pub fetched: bool,
    /// The answer, once settled and while the scratch ref is deleted.
    pub outcome: Option<Result<Imported>>,
}

/// Every command an import runs writes refs only, and only its own two: it reads
/// the checked-out branch and commits, fetches into the scratch ref, points the name
/// at a commit, and deletes the scratch ref. No working tree is ever touched.
pub open spec fn spec_ref_only(argv: Seq<Seq<char>>, run: ImportRun) -> bool {
    let heads = spec_heads_ref(run.name@);
    let scratch = run.scratch@;
    ||| argv == git::spec_current_branch_args()
    ||| argv == git::spec_fetch_into_ref(
        spec_location(run.source),
        spec_source_branch(run.source, run.branch@),
        scratch,
    )
    ||| argv == git::spec_tip_args(scratch)
    ||| argv == git::spec_tip_args(heads)
    ||| argv == git::spec_is_ancestor_args(heads, scratch)
    ||| argv == git::spec_log_messages_args(scratch, heads)
    ||| (argv.len() == 3 && argv[0] == "update-ref"@ && argv[1] == heads)
    ||| argv == git::spec_delete_ref(scratch)
}

/// The fetch this import asks for.
pub open spec fn spec_import_fetch(run: ImportRun) -> Seq<Seq<char>> {
    git::spec_fetch_into_ref(spec_location(run.source), spec_source_branch(run.source, run.branch@), run.scratch@)
}

/// The first word of every command an import asks for besides the fetch.
proof fn lemma_first_words()
    ensures
        "update-ref"@ != "fetch"@,
        "rev-parse"@ != "fetch"@,
        "merge-base"@ != "fetch"@,
        "log"@ != "fetch"@,
{
    reveal_strlit("fetch");
    reveal_strlit("update-ref");
    reveal_strlit("rev-parse");
    reveal_strlit("merge-base");
    reveal_strlit("log");
    assert("update-ref"@[0] != "fetch"@[0]);
    assert("rev-parse"@[0] != "fetch"@[0]);
    assert("merge-base"@[0] != "fetch"@[0]);
    assert("log"@[0] != "fetch"@[0]);
}

/// Whether the answer to the checked-out-branch question names `name`.
pub open spec fn spec_names(answer: Output, name: Seq<char>) -> bool {
    answer.status == 0 && text::spec_trim(answer.stdout@) == name
}

/// Whether a run's fixed facts are the same in two states.
pub open spec fn spec_same_run(a: ImportRun, b: ImportRun) -> bool {
    &&& a.destination == b.destination
    &&& a.name == b.name
    &&& a.branch == b.branch
    &&& a.repo == b.repo
    &&& a.source == b.source
    &&& a.scratch == b.scratch
}

fn copy_source(source: &Source) -> (out: Source)
    ensures
        out == *source,
{
    match source {
        Source::Repository(path) => Source::Repository(path.clone()),
        Source::Remote { remote, branch } => Source::Remote { remote: remote.clone(), branch: branch.clone() },
    }
}

/// A run's bookkeeping agrees with its phase: the fetch has been asked for exactly
/// when the checked-out branch has been cleared, and a run deleting its scratch ref
/// holds its answer.
pub open spec fn spec_staged(run: ImportRun) -> bool {
    &&& (run.phase is Cleanup ==> run.outcome is Some)
    &&& (run.fetched <==> !(run.phase is Current))
}

/// Every command asked for writes refs only.
pub open spec fn spec_commands_write_refs_only(action: ImportAction, run: ImportRun) -> bool {
    action matches ImportAction::Ask(argv) ==> spec_ref_only(views(argv@), run)
}

/// A name the destination has checked out ends the import with a refusal, and no
/// fetch is asked for.
pub open spec fn spec_refused_before_fetch(
    before: ImportRun,
    answer: Output,
    action: ImportAction,
    after: ImportRun,
) -> bool {
    before.phase is Current && spec_names(answer, before.name@) ==> {
        &&& action matches ImportAction::Finish(r) && r is Err
        &&& !after.fetched
    }
}

/// The fetch is asked for only once the checked-out branch is known not to be the
/// name written.
pub open spec fn spec_fetch_only_after_check(before: ImportRun, answer: Output, action: ImportAction) -> bool {
    action matches ImportAction::Ask(argv) && views(argv@) == spec_import_fetch(before) ==> {
        &&& before.phase is Current
        &&& !spec_names(answer, before.name@)
    }
}

/// Once the fetch has been asked for, the import ends only after the scratch ref's
/// deletion was asked for: every settled answer is held while that is asked.
pub open spec fn spec_scratch_always_deleted(before: ImportRun, action: ImportAction, after: ImportRun) -> bool {
    &&& (action is Finish ==> !before.fetched || before.phase is Cleanup)
    &&& (after.phase is Cleanup && !(before.phase is Cleanup) ==> (action matches ImportAction::Ask(argv)
        && views(argv@) == git::spec_delete_ref(before.scratch@)))
    &&& (before.phase is Cleanup ==> after.phase is Finished && action is Finish)
}

/// How the write is classified: a name the destination did not have is created;
/// one already at the fetched commit is unchanged; any other is asked about
/// ancestry, and fast-forwarded only where it descends; and a write that took is
/// the import's answer, at the fetched commit.
pub open spec fn spec_written_as(before: ImportRun, answer: Output, after: ImportRun) -> bool {
    match before.phase {
        Phase::Held { tip } => after.phase == (if answer.status != 0 {
            Phase::Update { tip, wrote: Wrote::Created }
        } else if text::spec_trim(answer.stdout@) == tip@ {
            Phase::Update { tip, wrote: Wrote::Unchanged }
        } else {
            Phase::Ancestry { tip }
        }),
        Phase::Ancestry { tip } => answer.status == 0 ==> after.phase == (Phase::Update {
            tip,
            wrote: Wrote::FastForwarded,
        }),
        Phase::Update { tip, wrote } => answer.status == 0 ==> match after.outcome {
            Some(Ok(i)) => i.tip == tip && i.wrote == wrote && i.name == before.name && i.destination
                == before.destination && i.source == before.source,
            _ => false,
        },
        _ => true,
    }
}

impl ImportRun {
    /// Begin an import: its first question is always which branch the destination
    /// has checked out, so a name it would refuse is refused before any fetch.
    pub fn start(
        destination: String,
        name: String,
        branch: String,
        repo: String,
        source: Source,
        scratch: String,
    ) -> (r: (ImportRun, ImportAction))
        ensures
            r.0.destination == destination && r.0.name == name && r.0.branch == branch && r.0.repo == repo
                && r.0.source == source && r.0.scratch == scratch,
            r.0.phase is Current,
            !r.0.fetched,
            r.0.outcome is None,
            r.1 matches ImportAction::Ask(argv) && views(argv@) == git::spec_current_branch_args(),
    {
        let run = ImportRun {
            destination,
            name,
            branch,
            repo,
            source,
            scratch,
            phase: Phase::Current,
            fetched: false,
            outcome: None,
        };
        (run, ImportAction::Ask(git::current_branch_args()))
    }

    /// Settle the answer, and ask for the scratch ref to be deleted where it was
    /// fetched into.
    fn settle(&mut self, answer: Result<Imported>) -> (action: ImportAction)
        requires
            old(self).fetched,
        ensures
            spec_same_run(*old(self), *final(self)),
            final(self).fetched,
            final(self).phase is Cleanup,
            final(self).outcome == Some(answer),
            action matches ImportAction::Ask(argv) && views(argv@) == git::spec_delete_ref(old(self).scratch@),
    {
        self.phase = Phase::Cleanup;
        self.outcome = Some(answer);
        ImportAction::Ask(git::delete_ref(&self.scratch))
    }

    /// Take git's answer to the last question, and say what comes next.
    ///
    /// A name the destination has checked out is refused before anything is
    /// fetched. Once the fetch has been asked for, every way the import ends goes
    /// through deleting the scratch ref first. Every command it asks for writes refs
    /// only: no working tree moves.
    pub fn step(&mut self, answer: Output) -> (action: ImportAction)
        requires
            !(old(self).phase is Finished),
            spec_staged(*old(self)),
        ensures
            spec_same_run(*old(self), *final(self)),
            spec_staged(*final(self)),
            spec_commands_write_refs_only(action, *final(self)),
            spec_refused_before_fetch(*old(self), answer, action, *final(self)),
            spec_fetch_only_after_check(*old(self), answer, action),
            spec_scratch_always_deleted(*old(self), action, *final(self)),
            spec_written_as(*old(self), answer, *final(self)),
    {
        let mut phase = Phase::Finished;
        std::mem::swap(&mut phase, &mut self.phase);
        proof {
            lemma_first_words();
            assert(self.fetched <==> !(phase is Current));
        }
        match phase {
            Phase::Current => {
                let current = match git::current_branch(answer) {
                    Ok(current) => current,
                    Err(e) => {
                        self.phase = Phase::Current;
                        return ImportAction::Finish(Err(e));
                    },
                };
                if let Err(e) = refuse_checked_out(&self.destination, &current, &self.name, &self.branch, &self.repo) {
                    self.phase = Phase::Current;
                    return ImportAction::Finish(Err(e));
                }
                self.phase = Phase::Fetch;
                self.fetched = true;
                let location = self.source.location();
                let asked = self.source.branch(&self.branch);
                ImportAction::Ask(git::fetch_into_ref(&location, &asked, &self.scratch))
            },
            Phase::Fetch => {
                if !answer.ok() {
                    let refused = fetched_tip(&self.source, &self.branch, false, None);
                    return match refused {
                        Err(e) => self.settle(Err(e)),
                        Ok(_) => self.settle(Err(Error::Invalid { reason: String::new() })),
                    };
                }
                self.phase = Phase::Tip;
                ImportAction::Ask(git::tip_args(&self.scratch))
            },
            Phase::Tip => {
                let tip = git::tip(Some(&answer));
                match fetched_tip(&self.source, &self.branch, true, tip) {
                    Ok(tip) => {
                        let heads = heads_ref(&self.name);
                        self.phase = Phase::Held { tip };
                        ImportAction::Ask(git::tip_args(&heads))
                    },
                    Err(e) => self.settle(Err(e)),
                }
            },
            Phase::Held { tip } => {
                let held = git::tip(Some(&answer));
                let heads = heads_ref(&self.name);
                let held_ref = match &held {
                    Some(h) => Some(h.as_str()),
                    None => None,
                };
                match write_of(held_ref, &tip) {
                    Write::Settled(wrote) => {
                        let args = git::update_ref(&heads, &tip);
                        self.phase = Phase::Update { tip, wrote };
                        ImportAction::Ask(args)
                    },
                    Write::Moves => {
                        self.phase = Phase::Ancestry { tip };
                        ImportAction::Ask(git::is_ancestor_args(&heads, &self.scratch))
                    },
                }
            },
            Phase::Ancestry { tip } => {
                let heads = heads_ref(&self.name);
                match git::is_ancestor(&answer) {
                    Ok(true) => {
                        let args = git::update_ref(&heads, &tip);
                        self.phase = Phase::Update { tip, wrote: Wrote::FastForwarded };
                        ImportAction::Ask(args)
                    },
                    Ok(false) => {
                        self.phase = Phase::Losing { tip };
                        ImportAction::Ask(git::log_messages_args(&self.scratch, &heads))
                    },
                    Err(e) => self.settle(Err(e)),
                }
            },
            Phase::Losing { tip } => {
                let heads = heads_ref(&self.name);
                match git::log_messages(&self.scratch, &heads, answer) {
                    Ok(losing) => {
                        let refused = refuse_a_rewrite(false, &self.destination, &self.name, &self.branch, &self.repo, &losing);
                        match refused {
                            Err(e) => self.settle(Err(e)),
                            Ok(()) => self.settle(Err(Error::Invalid { reason: String::new() })),
                        }
                    },
                    Err(e) => self.settle(Err(e)),
                }
            },
            Phase::Update { tip, wrote } => {
                let heads = heads_ref(&self.name);
                let args = git::update_ref(&heads, &tip);
                match git::checked(&args, answer) {
                    Ok(_) => {
                        let imported = Imported {
                            destination: self.destination.clone(),
                            name: self.name.clone(),
                            source: copy_source(&self.source),
                            tip,
                            wrote,
                        };
                        self.settle(Ok(imported))
                    },
                    Err(e) => self.settle(Err(e)),
                }
            },
            Phase::Cleanup => {
                let outcome = self.outcome.take();
                match outcome {
                    Some(answer) => ImportAction::Finish(answer),
                    None => ImportAction::Finish(Err(Error::Invalid { reason: String::new() })),
                }
            },
            Phase::Finished => ImportAction::Finish(Err(Error::Invalid { reason: String::new() })),
        }
    }
}

} // verus!
