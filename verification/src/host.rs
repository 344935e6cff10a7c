//! What a remote host is asked about a change request, in this crate's own
//! vocabulary, and how GitHub's answers through `gh` are read.

use vstd::prelude::*;

use crate::error::{Error, Result};
use crate::gh::Answer;
use crate::rules::MergePolicy;
use crate::text::{self, spec_trim, views};

verus! {

/// The exit code `gh pr checks` uses for checks still pending.
pub const CHECKS_PENDING: i32 = 8;

/// How `gh pr checks --required` opens its stderr when the repository declares no
/// required check at all.
pub const NO_REQUIRED_CHECKS: &'static str = "no required checks reported on the ";

/// How `gh pr checks` opens its stderr when the head carries no check at all yet.
pub const NO_CHECKS_YET: &'static str = "no checks reported on the ";

/// Whether a `gh pr checks` answer is one to read: it exited `0`, or with the code
/// for checks still pending.
pub fn usable(answer: &Answer) -> (b: bool)
    ensures
        b == (answer.code == Some(0i32) || answer.code == Some(CHECKS_PENDING)),
{
    match answer.code {
        Some(code) => code == 0 || code == CHECKS_PENDING,
        None => false,
    }
}

/// A failing `gh pr checks` that failed by *saying* something: it exited `1`, wrote
/// nothing to stdout, and opened its stderr with `opening` — all three, since this
/// is the one place a failed call is read as an answer.
pub open spec fn spec_failed_saying(answer: Answer, opening: Seq<char>) -> bool {
    answer.code == Some(1i32) && spec_trim(answer.stdout@).len() == 0 && text::spec_starts_with(
        text::spec_trim_start(answer.stderr@),
        opening,
    )
}

fn failed_saying(answer: &Answer, opening: &str) -> (b: bool)
    ensures
        b == spec_failed_saying(*answer, opening@),
{
    if answer.code != Some(1) {
        return false;
    }
    let out = text::trim(&answer.stdout);
    if text::chars_of(&out).len() != 0 {
        return false;
    }
    let err = text::trim_start(&answer.stderr);
    text::str_starts_with(&err, opening)
}

/// Whether a failing `gh pr checks --required` failed by answering that the
/// repository requires no check.
pub fn no_required_checks(answer: &Answer) -> (b: bool)
    ensures
        b == spec_failed_saying(*answer, NO_REQUIRED_CHECKS@),
{
    failed_saying(answer, NO_REQUIRED_CHECKS)
}

/// Whether a failing `gh pr checks` failed by reporting no check at all on the head,
/// which is not an answer about what blocks the merge.
pub fn no_checks_yet(answer: &Answer) -> (b: bool)
    ensures
        b == spec_failed_saying(*answer, NO_CHECKS_YET@),
{
    failed_saying(answer, NO_CHECKS_YET)
}

/// Which of the host's check sources a call may consult.
#[derive(Debug, Clone, Copy, PartialEq, Eq, Structural)]
pub enum Consult {
    /// The rollup, and Actions when the credential is not allowed to read it.
    Either,
    /// The complete status-check rollup only.
    StatusChecks,
    /// Actions jobs together with the branch rules that say which ones block.
    Actions,
}

/// What an unreadable check-source knob is refused as.
pub open spec fn spec_unknown_source(other: Seq<char>) -> Seq<char> {
    crate::gh::CHECK_SOURCE_ENV@ + " names "@ + text::spec_debug_quoted(other)
        + ", which is not a check source this build can read: it must be \"auto\", \"status-checks\", or \"actions\""@
}

/// What the check-source knob narrows a call to: unset, empty or `auto` is either
/// source; `status-checks` and `actions` are those; anything else is refused rather
/// than read loosely. Compared trimmed and without regard to ASCII case.
pub fn consult(raw: Option<&str>) -> (r: Result<Consult>)
    ensures
        match raw {
            None => r == Ok::<Consult, Error>(Consult::Either),
            Some(value) => {
                let named = text::spec_ascii_lower_seq(spec_trim(value@));
                if named.len() == 0 || named == "auto"@ {
                    r == Ok::<Consult, Error>(Consult::Either)
                } else if named == "status-checks"@ {
                    r == Ok::<Consult, Error>(Consult::StatusChecks)
                } else if named == "actions"@ {
                    r == Ok::<Consult, Error>(Consult::Actions)
                } else {
                    r is Err && crate::git::spec_refused(r->Err_0, spec_unknown_source(named))
                }
            },
        },
{
    let value = match raw {
        None => return Ok(Consult::Either),
        Some(value) => value,
    };
    let trimmed = text::trim(value);
    let named = text::to_ascii_lower(&trimmed);
    if text::chars_of(&named).len() == 0 || text::str_eq(&named, "auto") {
        Ok(Consult::Either)
    } else if text::str_eq(&named, "status-checks") {
        Ok(Consult::StatusChecks)
    } else if text::str_eq(&named, "actions") {
        Ok(Consult::Actions)
    } else {
        let mut reason = text::concat(crate::gh::CHECK_SOURCE_ENV, " names ");
        let quoted = text::debug_quoted(&named);
        reason.append(&quoted);
        reason.append(", which is not a check source this build can read: it must be \"auto\", \"status-checks\", or \"actions\"",
        );
        Err(Error::Invalid { reason })
    }
}

/// How GitHub declines what a fine-grained token may not reach.
pub const CHECK_RUN_REFUSAL: &'static str = "GraphQL: Resource not accessible by personal access token";

/// Whether a refusal is one this credential will *always* get: GitHub declining the
/// status-check rollup to a personal access token. Only that one sends a call to a
/// narrower source; anything else is a complete answer having gone wrong.
pub fn check_rollup_refused_for_pat(error: &Error) -> (b: bool)
    ensures
        b == (match *error {
            Error::Invalid { reason } => text::spec_contains(reason@, CHECK_RUN_REFUSAL@)
                && text::spec_contains(reason@, "statusCheckRollup"@),
            _ => false,
        }),
{
    match error {
        Error::Invalid { reason } => {
            let chars = text::chars_of(reason);
            let refusal = text::chars_of(CHECK_RUN_REFUSAL);
            let rollup = text::chars_of("statusCheckRollup");
            text::contains(&chars, &refusal) && text::contains(&chars, &rollup)
        },
        _ => false,
    }
}

/// What to open a change request for.
#[derive(Debug, Clone, PartialEq, Eq)]
pub struct ChangeSpec {
    /// The branch carrying the change.
    pub head: String,
    /// The branch it targets, which for a stacked change is the branch below it.
    pub base: String,
    /// The title, which under squash-merge becomes the commit subject.
    pub title: String,
    /// The body; absent means the host's default.
    pub body: Option<String>,
    /// Open it as a draft, and why it is not ready.
    pub draft: Option<String>,
}

/// A host's identifier for a change request.
#[derive(Debug, Clone, PartialEq, Eq, PartialOrd, Ord, Hash)]
pub struct ChangeId(pub String);

/// A commit hash.
#[derive(Debug, Clone, PartialEq, Eq, PartialOrd, Ord, Hash)]
pub struct Sha(pub String);

/// An open change request on the host.
#[derive(Debug, Clone, PartialEq, Eq)]
pub struct ChangeRequest {
    /// The host's identifier for it.
    pub id: ChangeId,
    /// Where a human reads it.
    pub url: String,
    /// The commit its checks are reported against.
    pub head_sha: Sha,
    /// The branch it targets.
    pub base: String,
}

/// One check the host reports on a change request.
#[derive(Debug, Clone, PartialEq, Eq)]
pub struct Check {
    /// The check's name, as branch protection lists it.
    pub name: String,
    /// Where the check is, in the host's own status vocabulary.
    pub status: String,
    /// How it ended, once it has.
    pub conclusion: Option<String>,
    /// Whether it blocks the merge.
    pub required: bool,
    /// The commit the host attached this check to, where it said.
    pub head: Option<Sha>,
    /// Where this check is on the host, where it reported an address.
    pub url: Option<String>,
}

/// A check that reached a terminal state: its status is `completed`, in any case.
pub open spec fn spec_settled(check: Check) -> bool {
    text::spec_ascii_lower_seq(check.status@) == "completed"@
}

/// A settled check that ended in a way that does not block a merge: success,
/// skipped or neutral, in any case.
pub open spec fn spec_green(check: Check) -> bool {
    spec_settled(check) && match check.conclusion {
        Some(c) => {
            let lowered = text::spec_ascii_lower_seq(c@);
            lowered == "success"@ || lowered == "skipped"@ || lowered == "neutral"@
        },
        None => false,
    }
}

impl Check {
    /// Whether this check has reached a terminal state.
    pub fn settled(&self) -> (b: bool)
        ensures
            b == spec_settled(*self),
    {
        let lowered = text::to_ascii_lower(&self.status);
        text::str_eq(&lowered, "completed")
    }

    /// Whether a settled check ended in a way that does not block a merge.
    pub fn green(&self) -> (b: bool)
        ensures
            b == spec_green(*self),
    {
        if !self.settled() {
            return false;
        }
        match &self.conclusion {
            Some(c) => {
                let lowered = text::to_ascii_lower(c);
                text::str_eq(&lowered, "success") || text::str_eq(&lowered, "skipped")
                    || text::str_eq(&lowered, "neutral")
            },
            None => false,
        }
    }

    /// Whether a settled check ended in a way that blocks a merge.
    pub fn red(&self) -> (b: bool)
        ensures
            b == (spec_settled(*self) && !spec_green(*self)),
    {
        self.settled() && !self.green()
    }
}

/// A check that has settled is exactly one of green and red, and one that has not is
/// neither: nothing still running reads as a verdict.
pub proof fn lemma_settled_is_green_or_red(check: Check)
    ensures
        spec_green(check) ==> spec_settled(check),
        spec_settled(check) ==> (spec_green(check) != (spec_settled(check) && !spec_green(check))),
        !spec_settled(check) ==> !spec_green(check) && !(spec_settled(check) && !spec_green(check)),
{
}

/// One place a host's answer about a change request's checks was read from.
#[derive(Debug, Clone, Copy, PartialEq, Eq, PartialOrd, Ord, Hash, Structural)]
pub enum CheckSource {
    /// The host's own rollup of every check on the change request.
    StatusChecks,
    /// GitHub Actions' own view of the head commit, and nothing else.
    Actions,
    /// The repository's rulesets, for which checks block a merge into the base.
    BranchRules,
}

/// What a host reports about a change request's checks, and where it looked.
#[derive(Debug, Clone, PartialEq, Eq)]
pub struct ChangeChecks {
    /// The checks themselves.
    pub checks: Vec<Check>,
    /// Every source consulted to produce them, each once.
    pub sources: Vec<CheckSource>,
}

impl ChangeChecks {
    /// Whether this answer covers every check the host reports: the rollup was
    /// among its sources. False means the checks are GitHub Actions' and only those.
    pub fn complete(&self) -> (b: bool)
        ensures
            b == self.sources@.contains(CheckSource::StatusChecks),
    {
        let mut k: usize = 0;
        while k < self.sources.len()
            invariant
                k <= self.sources@.len(),
                forall|j: int| 0 <= j < k ==> self.sources@[j] != CheckSource::StatusChecks,
            decreases self.sources.len() - k,
        {
            if self.sources[k] == CheckSource::StatusChecks {
                assert(self.sources@[k as int] == CheckSource::StatusChecks);
                return true;
            }
            k = k + 1;
        }
        false
    }
}

/// What merging a change request did.
#[derive(Debug, Clone, PartialEq, Eq)]
pub enum MergeOutcome {
    /// It merged, at this commit.
    Merged(Sha),
    /// The host queued it and will merge it once its checks pass.
    Queued,
    /// It was left open for review, which the policy asked for.
    Open,
}

/// A value that can address something on the host: not empty, and not an option.
pub open spec fn spec_addressable(value: Seq<char>) -> bool {
    value.len() > 0 && value[0] != '-'
}

/// What a value that can address nothing is refused as.
pub open spec fn spec_unaddressable(value: Seq<char>, what: Seq<char>) -> Seq<char> {
    what + " "@ + text::spec_debug_quoted(value)
        + " cannot address anything on the host: it must be non-empty and must not begin with '-'"@
}

/// Refuse a value bound for a `gh` argument that could address nothing, or be read
/// as an option.
pub fn addressable(value: &str, what: &str) -> (r: Result<()>)
    ensures
        spec_addressable(value@) ==> r is Ok,
        !spec_addressable(value@) ==> r is Err && crate::git::spec_refused(
            r->Err_0,
            spec_unaddressable(value@, what@),
        ),
{
    let chars = text::chars_of(value);
    if chars.len() == 0 || chars[0] == '-' {
        let mut reason = text::concat(what, " ");
        let quoted = text::debug_quoted(value);
        reason.append(&quoted);
        reason.append(" cannot address anything on the host: it must be non-empty and must not begin with '-'",
        );
        return Err(Error::Invalid { reason });
    }
    Ok(())
}

/// Refuse a check name that can match nothing the host reports: an empty one.
pub fn matchable(name: &str, url: &str) -> (r: Result<()>)
    ensures
        name@.len() > 0 ==> r is Ok,
        name@.len() == 0 ==> r is Err && crate::git::spec_refused(
            r->Err_0,
            "onevcs will not ask for the log of a check with no name on "@ + url@
                + ": every check the host reports is named, so an empty name matches none of them. This build refused the request; the host was not asked."@,
        ),
{
    if text::chars_of(name).len() == 0 {
        let mut reason = text::concat("onevcs will not ask for the log of a check with no name on ", url);
        reason.append(": every check the host reports is named, so an empty name matches none of them. This build refused the request; the host was not asked.",
        );
        return Err(Error::Invalid { reason });
    }
    Ok(())
}

/// Text in the shape of a commit hash: not empty, and hexadecimal throughout.
pub open spec fn spec_is_commit_hash(sha: Seq<char>) -> bool {
    sha.len() > 0 && forall|i: int| 0 <= i < sha.len() ==> text::spec_is_ascii_hex(#[trigger] sha[i])
}

/// Whether text the host handed over is the shape of a commit hash.
pub fn is_commit_hash(sha: &str) -> (b: bool)
    ensures
        b == spec_is_commit_hash(sha@),
{
    let chars = text::chars_of(sha);
    if chars.len() == 0 {
        return false;
    }
    let mut i: usize = 0;
    while i < chars.len()
        invariant
            i <= chars@.len(),
            chars@ == sha@,
            forall|j: int| 0 <= j < i ==> text::spec_is_ascii_hex(#[trigger] chars@[j]),
        decreases chars.len() - i,
    {
        if !text::is_ascii_hex(chars[i]) {
            return false;
        }
        i = i + 1;
    }
    true
}

/// A commit hash bound for a query string, refused where it is not one.
pub fn commit(sha: &Sha) -> (r: Result<&str>)
    ensures
        spec_is_commit_hash(sha.0@) ==> r is Ok && r.unwrap()@ == sha.0@,
        !spec_is_commit_hash(sha.0@) ==> r is Err && crate::git::spec_refused(
            r->Err_0,
            text::spec_debug_quoted(sha.0@)
                + " is not a commit hash, so the checks reported against it cannot be asked for"@,
        ),
{
    if !is_commit_hash(&sha.0) {
        let reason = text::concat(
            &text::debug_quoted(&sha.0),
            " is not a commit hash, so the checks reported against it cannot be asked for",
        );
        return Err(Error::Invalid { reason });
    }
    Ok(sha.0.as_str())
}

/// A byte a URL path segment carries as it stands.
pub open spec fn spec_unreserved(b: u8) -> bool {
    (48 <= b <= 57) || (65 <= b <= 90) || (97 <= b <= 122) || b == 45 || b == 46 || b == 95
        || b == 126
}

/// One byte of a path segment, percent-encoded where it is not unreserved, with
/// uppercase hex digits.
pub open spec fn spec_encoded_byte(b: u8) -> Seq<char> {
    if spec_unreserved(b) {
        seq![b as char]
    } else {
        seq!['%'] + text::spec_ascii_upper_seq(text::spec_hex_padded(b as nat, 2))
    }
}

/// Every byte of a value, encoded.
pub open spec fn spec_encoded(bytes: Seq<u8>) -> Seq<char>
    decreases bytes.len(),
{
    if bytes.len() == 0 {
        seq![]
    } else {
        spec_encoded(bytes.drop_last()) + spec_encoded_byte(bytes.last())
    }
}

/// One value bound for a URL path segment, percent-encoded byte by byte over its
/// UTF-8: a `/` in a branch name would otherwise address a resource nobody asked for.
pub fn path_segment(value: &str) -> (out: String)
    ensures
        out@ == spec_encoded(vstd::utf8::encode_utf8(value@)),
{
    let bytes = value.as_bytes();
    let mut out = String::new();
    let mut i: usize = 0;
    while i < bytes.len()
        invariant
            i <= bytes@.len(),
            bytes@ == vstd::utf8::encode_utf8(value@),
            out@ == spec_encoded(bytes@.take(i as int)),
        decreases bytes.len() - i,
    {
        let b = bytes[i];
        proof {
            assert(bytes@.take(i + 1).drop_last() =~= bytes@.take(i as int));
        }
        if (48 <= b && b <= 57) || (65 <= b && b <= 90) || (97 <= b && b <= 122) || b == 45 || b
            == 46 || b == 95 || b == 126 {
            text::push_char(&mut out, b as char);
            assert(out@ =~= spec_encoded(bytes@.take(i as int)) + seq![b as char]);
        } else {
            text::push_char(&mut out, '%');
            let hex = text::hex_padded(b as u64, 2);
            let upper = text::to_ascii_upper(&hex);
            out.append(&upper);
            assert(out@ =~= spec_encoded(bytes@.take(i as int)) + (seq!['%']
                + text::spec_ascii_upper_seq(text::spec_hex_padded(b as nat, 2))));
        }
        i = i + 1;
    }
    proof {
        assert(bytes@.take(bytes@.len() as int) =~= bytes@);
    }
    out
}

/// The GitHub implementation of the remote host, addressed at one repository.
#[derive(Debug, Clone, PartialEq, Eq)]
pub struct GitHub {
    repo: String,
}

/// A slug that names one repository: `owner/name`, both parts present, not opening
/// with `-`, and no white space anywhere.
pub open spec fn spec_names_one_repository(repo: Seq<char>) -> bool {
    let parts = text::spec_split(repo, '/');
    &&& parts.len() == 2
    &&& parts[0].len() > 0
    &&& parts[1].len() > 0
    &&& repo[0] != '-'
    &&& forall|i: int| 0 <= i < repo.len() ==> !text::spec_is_whitespace(#[trigger] repo[i])
}

impl View for GitHub {
    type V = Seq<char>;

    closed spec fn view(&self) -> Seq<char> {
        self.repo@
    }
}

impl GitHub {
    /// Address this host at one repository, named `owner/name`; anything else is
    /// refused here, since the slug goes into every `gh --repo` invocation.
    pub fn new(repo: String) -> (r: Result<GitHub>)
        ensures
            spec_names_one_repository(repo@) ==> r is Ok && r.unwrap()@ == repo@,
            !spec_names_one_repository(repo@) ==> r is Err && crate::git::spec_refused(
                r->Err_0,
                text::spec_debug_quoted(repo@) + " does not name one repository as owner/name"@,
            ),
    {
        let parts = text::split(&repo, '/');
        let chars = text::chars_of(&repo);
        let mut spaced = false;
        let mut i: usize = 0;
        while i < chars.len()
            invariant
                i <= chars@.len(),
                chars@ == repo@,
                spaced == exists|j: int| 0 <= j < i && text::spec_is_whitespace(#[trigger] chars@[j]),
            decreases chars.len() - i,
        {
            let w = text::is_whitespace(chars[i]);
            proof {
                if w {
                    assert(text::spec_is_whitespace(chars@[i as int]));
                }
                if spaced {
                    let j = choose|j: int| 0 <= j < i && text::spec_is_whitespace(#[trigger] chars@[j]);
                    assert(0 <= j < i + 1);
                }
                if !spaced && !w {
                    assert forall|j: int| 0 <= j < i + 1 implies !text::spec_is_whitespace(
                        #[trigger] chars@[j],
                    ) by {
                        if j < i {
                            assert(!text::spec_is_whitespace(chars@[j]));
                        }
                    }
                }
            }
            spaced = spaced || w;
            i = i + 1;
        }
        let named = parts.len() == 2 && text::chars_of(&parts[0]).len() > 0 && text::chars_of(
            &parts[1],
        ).len() > 0 && chars.len() > 0 && chars[0] != '-' && !spaced;
        proof {
            text::lemma_split_nonempty(repo@, '/');
            if repo@.len() == 0 {
                text::lemma_split_without(repo@, '/');
            }
        }
        if !named {
            let reason = text::concat(
                &text::debug_quoted(&repo),
                " does not name one repository as owner/name",
            );
            return Err(Error::Invalid { reason });
        }
        Ok(GitHub { repo })
    }

    /// The `owner/name` slug every call is addressed to.
    pub fn repo(&self) -> (out: &str)
        ensures
            out@ == self@,
    {
        self.repo.as_str()
    }
}

/// What merging under a policy asks the host to do: nothing for a policy that
/// leaves the change open, a squash merge once checks pass for `change-auto`, and an
/// immediate squash merge for `change-direct`.
pub fn merge_args(repo: &GitHub, id: &str, policy: MergePolicy) -> (r: Option<Vec<String>>)
    ensures
        match policy {
            MergePolicy::LocalDirect | MergePolicy::ChangeOpen => r is None,
            MergePolicy::ChangeAuto => r is Some && views(r.unwrap()@) == seq![
                "pr"@,
                "merge"@,
                id@,
                "--repo"@,
                repo@,
                "--squash"@,
                "--auto"@,
            ],
            MergePolicy::ChangeDirect => r is Some && views(r.unwrap()@) == seq![
                "pr"@,
                "merge"@,
                id@,
                "--repo"@,
                repo@,
                "--squash"@,
            ],
        },
{
    match policy {
        MergePolicy::LocalDirect | MergePolicy::ChangeOpen => None,
        MergePolicy::ChangeAuto => {
            let args = vec![
                text::owned("pr"),
                text::owned("merge"),
                text::owned(id),
                text::owned("--repo"),
                text::owned(repo.repo()),
                text::owned("--squash"),
                text::owned("--auto"),
            ];
            assert(views(args@) =~= seq![
                "pr"@,
                "merge"@,
                id@,
                "--repo"@,
                repo@,
                "--squash"@,
                "--auto"@,
            ]);
            Some(args)
        },
        MergePolicy::ChangeDirect => {
            let args = vec![
                text::owned("pr"),
                text::owned("merge"),
                text::owned(id),
                text::owned("--repo"),
                text::owned(repo.repo()),
                text::owned("--squash"),
            ];
            assert(views(args@) =~= seq!["pr"@, "merge"@, id@, "--repo"@, repo@, "--squash"@]);
            Some(args)
        },
    }
}

/// What a merge under a policy came to, given the commit the host reports the change
/// merged as: open where the policy leaves it open; merged or queued for
/// `change-auto`; and for `change-direct` merged, or refused where the host accepted
/// the merge and reports the change unmerged.
pub fn merge_outcome(policy: MergePolicy, merged: Option<Sha>, url: &str) -> (r: Result<
    MergeOutcome,
>)
    ensures
        match policy {
            MergePolicy::LocalDirect | MergePolicy::ChangeOpen => r == Ok::<MergeOutcome, Error>(
                MergeOutcome::Open,
            ),
            MergePolicy::ChangeAuto => r == Ok::<MergeOutcome, Error>(
                match merged {
                    Some(sha) => MergeOutcome::Merged(sha),
                    None => MergeOutcome::Queued,
                },
            ),
            MergePolicy::ChangeDirect => match merged {
                Some(sha) => r == Ok::<MergeOutcome, Error>(MergeOutcome::Merged(sha)),
                None => r is Err && (r->Err_0 matches Error::GateFailed { reason } && reason@
                    == "the host accepted the merge of "@ + url@ + " but reports it unmerged"@),
            },
        },
{
    match policy {
        MergePolicy::LocalDirect | MergePolicy::ChangeOpen => Ok(MergeOutcome::Open),
        MergePolicy::ChangeAuto => Ok(
            match merged {
                Some(sha) => MergeOutcome::Merged(sha),
                None => MergeOutcome::Queued,
            },
        ),
        MergePolicy::ChangeDirect => match merged {
            Some(sha) => Ok(MergeOutcome::Merged(sha)),
            None => {
                let reason = text::concat3(
                    "the host accepted the merge of ",
                    url,
                    " but reports it unmerged",
                );
                Err(Error::GateFailed { reason })
            },
        },
    }
}

// ---------------------------------------------------------------------------
// Reading what the host answered
// ---------------------------------------------------------------------------

/// A field of a host answer as this build reads it: its text where it is present
/// and not empty, and nothing otherwise.
pub open spec fn spec_present(field: Option<String>) -> Option<Seq<char>> {
    match field {
        Some(v) => if v@.len() > 0 {
            Some(v@)
        } else {
            None
        },
        None => None,
    }
}

fn present(field: &Option<String>) -> (r: Option<String>)
    ensures
        text::opt_view(r) == spec_present(*field),
{
    match field {
        Some(v) => if text::chars_of(v).len() > 0 {
            Some(v.clone())
        } else {
            None
        },
        None => None,
    }
}

/// What `url::Url::parse` answers for a string: on success the URL as the crate
/// serializes it and the last of its path segments (none for a URL that cannot be a
/// base), and otherwise the parse error as the crate words it.
pub uninterp spec fn spec_url_parts(value: Seq<char>) -> std::result::Result<
    (Seq<char>, Option<Seq<char>>),
    Seq<char>,
>;

/// `url::Url::parse`, read back as [`spec_url_parts`] describes: the URL as the
/// crate serializes it with the last segment of its path, or the crate's own words
/// for why the text is not a URL. Nothing more is claimed of either.
#[verifier::external_body]
fn url_parts(value: &str) -> (r: std::result::Result<(String, Option<String>), String>)
    ensures
        match r {
            Ok((parsed, last)) => spec_url_parts(value@) == Ok::<(Seq<char>, Option<Seq<char>>), Seq<char>>(
                (parsed@, text::opt_view(last)),
            ),
            Err(e) => spec_url_parts(value@) == Err::<(Seq<char>, Option<Seq<char>>), Seq<char>>(e@),
        },
{
    match url::Url::parse(value) {
        Ok(parsed) => {
            let last = match parsed.path_segments() {
                Some(segments) => segments.last().map(str::to_owned),
                None => None,
            };
            Ok((parsed.to_string(), last))
        },
        Err(e) => Err(e.to_string()),
    }
}

/// A string as a URL, spelled back as the `url` crate serializes it, or nothing
/// where it does not parse.
pub open spec fn spec_parsed_url(value: Seq<char>) -> Option<Seq<char>> {
    match spec_url_parts(value) {
        Ok((parsed, _)) => Some(parsed),
        Err(_) => None,
    }
}

/// Where the host says something is: a present field that parses as a URL.
pub open spec fn spec_reported_url(field: Option<String>) -> Option<Seq<char>> {
    match spec_present(field) {
        Some(v) => spec_parsed_url(v),
        None => None,
    }
}

/// Where the host says something is, where it named a place a person can be
/// pointed at; a URL that will not parse names nowhere rather than failing the read.
pub fn reported_url(field: &Option<String>) -> (r: Option<String>)
    ensures
        text::opt_view(r) == spec_reported_url(*field),
{
    match present(field) {
        Some(v) => match url_parts(&v) {
            Ok((parsed, _)) => Some(parsed),
            Err(_) => None,
        },
        None => None,
    }
}

/// The commit a host answer names in `field`: nothing where it names none, and a
/// refusal where what it names is not a commit hash — which would otherwise match
/// nothing and read as silence about the commit.
pub fn reported_sha(reported: &Option<String>, field: &str) -> (r: Result<Option<Sha>>)
    ensures
        match spec_present(*reported) {
            None => r is Ok && r->Ok_0 is None,
            Some(v) => if spec_is_commit_hash(v) {
                r is Ok && (r->Ok_0 matches Some(sha) && sha.0@ == v)
            } else {
                r is Err && crate::git::spec_refused(
                    r->Err_0,
                    "gh reported "@ + text::spec_debug_quoted(v) + " as the "@ + field@
                        + " of a check, and that is not a commit hash, so which commit the check is attached to cannot be decided"@,
                )
            },
        },
{
    let value = match present(reported) {
        None => return Ok(None),
        Some(v) => v,
    };
    if !is_commit_hash(&value) {
        let mut reason = text::concat3("gh reported ", &text::debug_quoted(&value), " as the ");
        reason.append(field);
        reason.append(" of a check, and that is not a commit hash, so which commit the check is attached to cannot be decided",
        );
        return Err(Error::Invalid { reason });
    }
    Ok(Some(Sha(value)))
}

/// The commit a change request's checks are reported against; a change request the
/// host names no head for is refused, quoting the answer (`answer`).
pub fn head_sha(reported: &Option<String>, answer: &str) -> (r: Result<Sha>)
    ensures
        match spec_present(*reported) {
            Some(v) => r is Ok && r->Ok_0.0@ == v,
            None => r is Err && crate::git::spec_refused(
                r->Err_0,
                "gh returned a change request with no head: "@ + answer@,
            ),
        },
{
    match present(reported) {
        Some(v) => Ok(Sha(v)),
        None => Err(Error::Invalid { reason: text::concat("gh returned a change request with no head: ", answer) }),
    }
}

/// The commit a merged change request landed as: nothing while its state is not
/// `merged` (in any case), and a refusal where the host names no state, or reports
/// it merged without naming the commit.
pub fn merged_sha(state: &Option<String>, merge_commit: &Option<String>, url: &str) -> (r: Result<
    Option<Sha>,
>)
    ensures
        match *state {
            None => r is Err && crate::git::spec_refused(
                r->Err_0,
                "gh pr view returned no state for "@ + url@,
            ),
            Some(st) => if text::spec_ascii_lower_seq(st@) != "merged"@ {
                r is Ok && r->Ok_0 is None
            } else {
                match spec_present(*merge_commit) {
                    Some(oid) => r is Ok && (r->Ok_0 matches Some(sha) && sha.0@ == oid),
                    None => r is Err && crate::git::spec_refused(
                        r->Err_0,
                        "gh pr view reports "@ + url@ + " merged without naming the commit it merged as"@,
                    ),
                }
            },
        },
{
    let st = match state {
        None => return Err(Error::Invalid { reason: text::concat("gh pr view returned no state for ", url) }),
        Some(st) => st,
    };
    let lowered = text::to_ascii_lower(st);
    if !text::str_eq(&lowered, "merged") {
        return Ok(None);
    }
    match present(merge_commit) {
        Some(oid) => Ok(Some(Sha(oid))),
        None => Err(
            Error::Invalid {
                reason: text::concat3(
                    "gh pr view reports ",
                    url,
                    " merged without naming the commit it merged as",
                ),
            },
        ),
    }
}

/// Whether the host holds a change request as a draft; an answer that does not say
/// is refused rather than read as "not a draft".
pub fn draft(is_draft: Option<bool>, url: &str) -> (r: Result<bool>)
    ensures
        match is_draft {
            Some(b) => r == Ok::<bool, Error>(b),
            None => r is Err && crate::git::spec_refused(
                r->Err_0,
                "gh pr view answered about "@ + url@
                    + " without saying whether it is a draft, so whether the host is holding it cannot be read"@,
            ),
        },
{
    match is_draft {
        Some(b) => Ok(b),
        None => Err(
            Error::Invalid {
                reason: text::concat3(
                    "gh pr view answered about ",
                    url,
                    " without saying whether it is a draft, so whether the host is holding it cannot be read",
                ),
            },
        ),
    }
}

/// One listing of the Actions API, held to the count it reports: a listing with no
/// entries, no count, or fewer entries than its count is refused, since a partial
/// answer read as whole is a check nobody waited for. `entries` is how many it
/// listed under `field` (none where it listed nothing there), `answer` the listing.
pub fn listed(entries: Option<usize>, total: Option<u64>, field: &str, what: &str, answer: &str) -> (r:
    Result<()>)
    ensures
        match entries {
            None => r is Err && crate::git::spec_refused(
                r->Err_0,
                "the Actions API answered about "@ + what@ + " with something that lists no "@ + field@
                    + ": "@ + answer@,
            ),
            Some(n) => match total {
                None => r is Err && crate::git::spec_refused(
                    r->Err_0,
                    "the Actions API did not say how many "@ + field@ + " there are on "@ + what@ + ": "@
                        + answer@,
                ),
                Some(t) => if t > n {
                    r is Err && crate::git::spec_refused(
                        r->Err_0,
                        "the Actions API reports "@ + text::spec_decimal(t as nat) + " "@ + field@ + " on "@
                            + what@ + " and returned "@ + text::spec_decimal(n as nat)
                            + ", so this build has not been shown all of them"@,
                    )
                } else {
                    r is Ok
                },
            },
        },
{
    let n = match entries {
        None => {
            let mut reason = text::concat3("the Actions API answered about ", what, " with something that lists no ");
            reason.append(field);
            reason.append(": ");
            reason.append(answer);
            return Err(Error::Invalid { reason });
        },
        Some(n) => n,
    };
    let t = match total {
        None => {
            let mut reason = text::concat3("the Actions API did not say how many ", field, " there are on ");
            reason.append(what);
            reason.append(": ");
            reason.append(answer);
            return Err(Error::Invalid { reason });
        },
        Some(t) => t,
    };
    if t > n as u64 {
        let mut reason = text::concat3("the Actions API reports ", &text::decimal(t), " ");
        reason.append(field);
        reason.append(" on ");
        reason.append(what);
        reason.append(" and returned ");
        reason.append(&text::decimal(n as u64));
        reason.append(", so this build has not been shown all of them");
        return Err(Error::Invalid { reason });
    }
    Ok(())
}

/// What a credential that can read none of the host's check sources is refused as:
/// both refusals verbatim, and the permission that answers them.
pub fn unreadable(repo: &str, url: &str, rollup: &Error, actions: &Error) -> (e: Error)
    ensures
        crate::git::spec_refused(
            e,
            "neither of GitHub's check sources could be read for "@ + url@
                + ", so what its checks say is unknown rather than empty. Its check rollup answered: "@
                + crate::error::spec_message(*rollup) + ". Its Actions API answered: "@
                + crate::error::spec_message(*actions) + ". Grant this credential `Actions: Read` on "@
                + repo@
                + " to read the repository's workflow checks — a fine-grained personal access token cannot read the rollup at all, whatever it is scoped to, because GitHub offers no Checks permission for one."@,
        ),
{
    let mut reason = text::concat3(
        "neither of GitHub's check sources could be read for ",
        url,
        ", so what its checks say is unknown rather than empty. Its check rollup answered: ",
    );
    reason.append(&rollup.message());
    reason.append(". Its Actions API answered: ");
    reason.append(&actions.message());
    reason.append(". Grant this credential `Actions: Read` on ");
    reason.append(repo);
    reason.append(" to read the repository's workflow checks — a fine-grained personal access token cannot read the rollup at all, whatever it is scoped to, because GitHub offers no Checks permission for one.",
    );
    Error::Invalid { reason }
}

/// What a host that will not say whether a check blocks the merge is refused as.
pub fn unsaid(url: &str, detail: &str) -> (e: Error)
    ensures
        crate::git::spec_refused(
            e,
            "gh pr checks --required answered about "@ + url@ + " with "@ + detail@
                + ", so a check it reported does not say whether it blocks the merge"@,
        ),
{
    let mut reason = text::concat3("gh pr checks --required answered about ", url, " with ");
    reason.append(detail);
    reason.append(", so a check it reported does not say whether it blocks the merge");
    Error::Invalid { reason }
}

/// One entry of the host's check rollup, as its fields arrived; `answer` is the
/// entry as the host wrote it.
#[derive(Debug, Clone)]
pub struct CheckAnswer {
    /// Its `name`, where it has one.
    pub name: Option<String>,
    /// Its `context`, which a commit status is named by.
    pub context: Option<String>,
    /// Its `status`.
    pub status: Option<String>,
    /// Its `conclusion`, absent while it runs.
    pub conclusion: Option<String>,
    /// Its `detailsUrl`.
    pub details_url: Option<String>,
    /// The entry, as the host wrote it.
    pub answer: String,
}

/// A present field, lowercased.
pub open spec fn spec_lowered(field: Option<String>) -> Option<Seq<char>> {
    match spec_present(field) {
        Some(v) => Some(text::spec_ascii_lower_seq(v)),
        None => None,
    }
}

/// What a rollup entry missing a field is refused as.
pub open spec fn spec_missing_field(url: Seq<char>, field: Seq<char>, answer: Seq<char>) -> Seq<char> {
    "gh pr view returned a check on "@ + url + " with no "@ + field + ": "@ + answer
}

/// The name a rollup entry goes by: its `name`, or else its `context`.
pub open spec fn spec_check_name(entry: CheckAnswer) -> Option<Seq<char>> {
    match spec_present(entry.name) {
        Some(n) => Some(n),
        None => spec_present(entry.context),
    }
}

/// Why a rollup entry on the change request at `url` is refused, if it is: it goes
/// by no name, or it carries no status.
pub open spec fn spec_check_refusal(entry: CheckAnswer, url: Seq<char>) -> Option<Seq<char>> {
    match spec_check_name(entry) {
        None => Some(spec_missing_field(url, "context"@, entry.answer@)),
        Some(_) => match spec_lowered(entry.status) {
            None => Some(spec_missing_field(url, "status"@, entry.answer@)),
            Some(_) => None,
        },
    }
}

/// Whether `c` is what a rollup entry reads as: its name, status and conclusion
/// (those two lowercased), blocking where `required` names it, against `head`, at
/// the address it reported.
pub open spec fn spec_reads_as(entry: CheckAnswer, required: Seq<Seq<char>>, head: Option<Sha>, c: Check) -> bool {
    &&& spec_check_name(entry) == Some(c.name@)
    &&& spec_lowered(entry.status) == Some(c.status@)
    &&& text::opt_view(c.conclusion) == spec_lowered(entry.conclusion)
    &&& c.required == required.contains(c.name@)
    &&& c.head == head
    &&& text::opt_view(c.url) == spec_reported_url(entry.details_url)
}

/// One entry of the host's check rollup, required to say what it is: named by its
/// `name` or else its `context`, with a status, both lowercased; blocking exactly
/// where `required` names it; reported against `head`.
pub fn check(entry: &CheckAnswer, url: &str, required: &[String], head: Option<Sha>) -> (r: Result<
    Check,
>)
    ensures
        match spec_check_refusal(*entry, url@) {
            Some(reason) => r is Err && crate::git::spec_refused(r->Err_0, reason),
            None => r is Ok && spec_reads_as(*entry, views(required@), head, r->Ok_0),
        },
{
    let missing = |field: &str| -> (e: Error)
        ensures
            crate::git::spec_refused(e, spec_missing_field(url@, field@, entry.answer@)),
    {
        let mut reason = text::concat3("gh pr view returned a check on ", url, " with no ");
        reason.append(field);
        reason.append(": ");
        reason.append(&entry.answer);
        Error::Invalid { reason }
    };
    let name = match present(&entry.name) {
        Some(n) => n,
        None => match present(&entry.context) {
            Some(n) => n,
            None => return Err(missing("context")),
        },
    };
    let status = match present(&entry.status) {
        Some(st) => text::to_ascii_lower(&st),
        None => return Err(missing("status")),
    };
    let conclusion = match present(&entry.conclusion) {
        Some(c) => Some(text::to_ascii_lower(&c)),
        None => None,
    };
    let blocks = text::contains_text(required, &name);
    Ok(Check {
        name,
        status,
        conclusion,
        required: blocks,
        head,
        url: reported_url(&entry.details_url),
    })
}

/// One workflow job, as the Actions API reports it.
#[derive(Debug, Clone, PartialEq, Eq)]
pub struct Job {
    /// What its log is addressed by.
    pub id: u64,
    /// Its name, which is the name GitHub posts its check run under.
    pub name: String,
    /// Where it is, lowercased.
    pub status: String,
    /// How it ended, lowercased, once it has.
    pub conclusion: Option<String>,
    /// The commit its workflow run was reported against.
    pub head: Option<Sha>,
    /// Where a human reads it.
    pub url: Option<String>,
}

/// One job of an Actions listing, as its fields arrived; `answer` is the entry as
/// the host wrote it.
#[derive(Debug, Clone)]
pub struct JobAnswer {
    /// Its `id`.
    pub id: Option<u64>,
    /// Its `name`.
    pub name: Option<String>,
    /// Its `status`.
    pub status: Option<String>,
    /// Its `conclusion`, absent while it runs.
    pub conclusion: Option<String>,
    /// Its `html_url`.
    pub html_url: Option<String>,
    /// The entry, as the host wrote it.
    pub answer: String,
}

/// What a job entry missing a field is refused as.
pub open spec fn spec_missing_job_field(url: Seq<char>, field: Seq<char>, answer: Seq<char>) -> Seq<char> {
    "the Actions API returned a job on "@ + url + " with no "@ + field + ": "@ + answer
}

/// One job of an Actions listing, required to say what it is — an id, a name and a
/// status — since a defaulted field is how a running job would read as green.
pub fn job(entry: &JobAnswer, url: &str, head: Option<Sha>) -> (r: Result<Job>)
    ensures
        entry.id is None ==> r is Err && crate::git::spec_refused(
            r->Err_0,
            "the Actions API returned a job on "@ + url@ + " with no id, so its log cannot be asked for: "@
                + entry.answer@,
        ),
        entry.id is Some && spec_present(entry.name) is None ==> r is Err && crate::git::spec_refused(
            r->Err_0,
            spec_missing_job_field(url@, "name"@, entry.answer@),
        ),
        entry.id is Some && spec_present(entry.name) is Some && spec_present(entry.status) is None ==> r is Err
            && crate::git::spec_refused(r->Err_0, spec_missing_job_field(url@, "status"@, entry.answer@)),
        entry.id is Some && spec_present(entry.name) is Some && spec_present(entry.status) is Some ==> r is Ok && {
            let j = r->Ok_0;
            &&& j.id == entry.id->Some_0
            &&& j.name@ == spec_present(entry.name)->Some_0
            &&& Some(j.status@) == spec_lowered(entry.status)
            &&& text::opt_view(j.conclusion) == spec_lowered(entry.conclusion)
            &&& j.head == head
            &&& text::opt_view(j.url) == spec_reported_url(entry.html_url)
        },
{
    let id = match entry.id {
        Some(id) => id,
        None => {
            let mut reason = text::concat3(
                "the Actions API returned a job on ",
                url,
                " with no id, so its log cannot be asked for: ",
            );
            reason.append(&entry.answer);
            return Err(Error::Invalid { reason });
        },
    };
    let missing = |field: &str| -> (e: Error)
        ensures
            crate::git::spec_refused(e, spec_missing_job_field(url@, field@, entry.answer@)),
    {
        let mut reason = text::concat3("the Actions API returned a job on ", url, " with no ");
        reason.append(field);
        reason.append(": ");
        reason.append(&entry.answer);
        Error::Invalid { reason }
    };
    let name = match present(&entry.name) {
        Some(n) => n,
        None => return Err(missing("name")),
    };
    let status = match present(&entry.status) {
        Some(st) => text::to_ascii_lower(&st),
        None => return Err(missing("status")),
    };
    let conclusion = match present(&entry.conclusion) {
        Some(c) => Some(text::to_ascii_lower(&c)),
        None => None,
    };
    Ok(Job { id, name, status, conclusion, head, url: reported_url(&entry.html_url) })
}

/// The checks GitHub Actions reports, one per job, blocking where the repository's
/// rulesets name them (`required`); from Actions alone where nothing has run yet —
/// the rulesets are not asked then, and the answer does not claim they were.
pub fn actions_checks(jobs: Vec<Job>, required: &[String]) -> (r: ChangeChecks)
    ensures
        jobs@.len() == 0 ==> r.checks@.len() == 0 && r.sources@ == seq![CheckSource::Actions],
        jobs@.len() > 0 ==> r.sources@ == seq![CheckSource::Actions, CheckSource::BranchRules],
        r.checks@.len() == jobs@.len(),
        forall|i: int|
            0 <= i < jobs@.len() ==> {
                let c = #[trigger] r.checks@[i];
                let j = jobs@[i];
                &&& c.name == j.name
                &&& c.status == j.status
                &&& c.conclusion == j.conclusion
                &&& c.required == views(required@).contains(j.name@)
                &&& c.head == j.head
                &&& c.url == j.url
            },
{
    if jobs.len() == 0 {
        return ChangeChecks { checks: Vec::new(), sources: vec![CheckSource::Actions] };
    }
    let mut checks: Vec<Check> = Vec::new();
    let ghost all = jobs@;
    let mut jobs = jobs;
    let mut i: usize = 0;
    let n = jobs.len();
    while i < n
        invariant
            n == all.len(),
            i <= n,
            jobs@ == all.skip(i as int),
            checks@.len() == i,
            forall|k: int|
                0 <= k < i ==> {
                    let c = #[trigger] checks@[k];
                    let j = all[k];
                    &&& c.name == j.name
                    &&& c.status == j.status
                    &&& c.conclusion == j.conclusion
                    &&& c.required == views(required@).contains(j.name@)
                    &&& c.head == j.head
                    &&& c.url == j.url
                },
        decreases n - i,
    {
        let j = jobs.remove(0);
        assert(j == all[i as int]);
        let blocks = text::contains_text(required, &j.name);
        checks.push(Check { name: j.name, status: j.status, conclusion: j.conclusion, required: blocks, head: j.head, url: j.url });
        i = i + 1;
        assert(jobs@ =~= all.skip(i as int));
    }
    ChangeChecks { checks, sources: vec![CheckSource::Actions, CheckSource::BranchRules] }
}

/// One required check a ruleset names, as it arrived.
#[derive(Debug, Clone)]
pub struct ContextAnswer {
    /// Its `context`.
    pub context: Option<String>,
    /// The entry, as the host wrote it.
    pub answer: String,
}

/// One rule on a branch, as it arrived.
#[derive(Debug, Clone)]
pub struct RuleAnswer {
    /// Its `type`.
    pub kind: Option<String>,
    /// Its `parameters.required_status_checks`, where that is a list.
    pub required: Option<Vec<ContextAnswer>>,
    /// The rule, as the host wrote it.
    pub answer: String,
}

/// What the rules on a base that are not a list are refused as.
pub open spec fn spec_rules_unlisted(url: Seq<char>, base: Seq<char>, answer: Seq<char>) -> Seq<char> {
    "the rules on "@ + url + "'s base branch "@ + text::spec_debug_quoted(base)
        + " came back as something that is not a list of them, so which of its checks block the merge cannot be read from it: "@
        + answer
}

/// Whether a rule is the kind that names the checks a merge must wait for.
pub open spec fn spec_is_status_rule(rule: RuleAnswer) -> bool {
    match rule.kind {
        Some(k) => k@ == "required_status_checks"@,
        None => false,
    }
}

/// The first listed check, from `from` on, that names no context.
pub open spec fn spec_first_unnamed_context(listed: Seq<ContextAnswer>, from: int) -> Option<int>
    decreases listed.len() - from,
{
    if from < 0 || from >= listed.len() {
        None
    } else if spec_present(listed[from].context) is None {
        Some(from)
    } else {
        spec_first_unnamed_context(listed, from + 1)
    }
}

/// The first thing a rule list says that does not name a blocking check, from rule
/// `from` on: a status-check rule without its list, or a listed check without a
/// context — quoted as the host wrote it. `None` where every such rule names its
/// checks.
pub open spec fn spec_unnamed(rules: Seq<RuleAnswer>, from: int) -> Option<Seq<char>>
    decreases rules.len() - from,
{
    if from < 0 || from >= rules.len() {
        None
    } else if !spec_is_status_rule(rules[from]) {
        spec_unnamed(rules, from + 1)
    } else {
        match rules[from].required {
            None => Some(rules[from].answer@),
            Some(listed) => match spec_first_unnamed_context(listed@, 0) {
                Some(k) => Some(listed@[k].answer@),
                None => spec_unnamed(rules, from + 1),
            },
        }
    }
}

/// The contexts a list of required checks names.
pub open spec fn spec_contexts(listed: Seq<ContextAnswer>) -> Seq<Seq<char>>
    decreases listed.len(),
{
    if listed.len() == 0 {
        seq![]
    } else {
        spec_contexts(listed.drop_last()) + match spec_present(listed.last().context) {
            Some(c) => seq![c],
            None => seq![],
        }
    }
}

/// Every check the status-check rules name, in the order they name them.
pub open spec fn spec_ruled_names(rules: Seq<RuleAnswer>) -> Seq<Seq<char>>
    decreases rules.len(),
{
    if rules.len() == 0 {
        seq![]
    } else {
        spec_ruled_names(rules.drop_last()) + if spec_is_status_rule(rules.last()) {
            match rules.last().required {
                Some(listed) => spec_contexts(listed@),
                None => seq![],
            }
        } else {
            seq![]
        }
    }
}

fn first_unnamed_context(listed: &Vec<ContextAnswer>) -> (r: Option<usize>)
    ensures
        match r {
            Some(k) => spec_first_unnamed_context(listed@, 0) == Some(k as int) && k < listed@.len(),
            None => spec_first_unnamed_context(listed@, 0) is None,
        },
{
    let mut k: usize = 0;
    while k < listed.len()
        invariant
            k <= listed@.len(),
            spec_first_unnamed_context(listed@, 0) == spec_first_unnamed_context(listed@, k as int),
        decreases listed.len() - k,
    {
        if present(&listed[k].context).is_none() {
            return Some(k);
        }
        k = k + 1;
    }
    None
}

fn contexts(listed: &Vec<ContextAnswer>) -> (out: Vec<String>)
    ensures
        views(out@) == spec_contexts(listed@),
{
    let mut out: Vec<String> = Vec::new();
    let mut k: usize = 0;
    while k < listed.len()
        invariant
            k <= listed@.len(),
            views(out@) == spec_contexts(listed@.take(k as int)),
        decreases listed.len() - k,
    {
        proof {
            assert(listed@.take(k + 1).drop_last() =~= listed@.take(k as int));
        }
        match present(&listed[k].context) {
            Some(c) => {
                let ghost before = views(out@);
                let ghost said = c@;
                out.push(c);
                proof {
                    assert(views(out@) =~= before + seq![said]);
                }
            },
            None => {
                proof {
                    assert(views(out@) =~= views(out@) + Seq::<Seq<char>>::empty());
                }
            },
        }
        k = k + 1;
    }
    proof {
        assert(listed@.take(listed@.len() as int) =~= listed@);
    }
    out
}

/// The names of the checks the repository's rulesets say block a merge into `base`:
/// the base must be a name git accepts (`base_valid`), the rules must come back as a
/// list (`rules`, none where they did not; `answer` is what came back), and every
/// status-check rule must name its checks — a rule that requires checks and will not
/// say which is refused rather than read as "none".
pub fn ruled_checks(
    url: &str,
    base: &str,
    base_valid: bool,
    rules: Option<&[RuleAnswer]>,
    answer: &str,
) -> (r: Result<Vec<String>>)
    ensures
        !base_valid ==> r is Err && crate::git::spec_refused(
            r->Err_0,
            "the base branch "@ + text::spec_debug_quoted(base@) + " is a name git would not accept"@,
        ),
        base_valid && rules is None ==> r is Err && crate::git::spec_refused(
            r->Err_0,
            spec_rules_unlisted(url@, base@, answer@),
        ),
        base_valid && rules is Some ==> match spec_unnamed(rules->Some_0@, 0) {
            Some(detail) => r is Err && crate::git::spec_refused(
                r->Err_0,
                "gh pr checks --required answered about "@ + url@ + " with "@ + detail
                    + ", so a check it reported does not say whether it blocks the merge"@,
            ),
            None => r is Ok && text::spec_strictly_sorted(views(r->Ok_0@)) && views(r->Ok_0@).to_set()
                == spec_ruled_names(rules->Some_0@).to_set(),
        },
{
    if !base_valid {
        let reason = text::concat3("the base branch ", &text::debug_quoted(base), " is a name git would not accept");
        return Err(Error::Invalid { reason });
    }
    let given = match rules {
        None => {
            let mut reason = text::concat3("the rules on ", url, "'s base branch ");
            reason.append(&text::debug_quoted(base));
            reason.append(" came back as something that is not a list of them, so which of its checks block the merge cannot be read from it: ",
            );
            reason.append(answer);
            return Err(Error::Invalid { reason });
        },
        Some(given) => given,
    };
    let mut names: Vec<String> = Vec::new();
    let mut i: usize = 0;
    while i < given.len()
        invariant
            base_valid,
            rules == Some(given),
            i <= given@.len(),
            spec_unnamed(given@, 0) == spec_unnamed(given@, i as int),
            views(names@) == spec_ruled_names(given@.take(i as int)),
        decreases given.len() - i,
    {
        proof {
            assert(given@.take(i + 1).drop_last() =~= given@.take(i as int));
        }
        let rule = &given[i];
        let status_rule = match &rule.kind {
            Some(k) => text::str_eq(k, "required_status_checks"),
            None => false,
        };
        if status_rule {
            match &rule.required {
                None => return Err(unsaid(url, &rule.answer)),
                Some(listed) => {
                    match first_unnamed_context(listed) {
                        Some(k) => return Err(unsaid(url, &listed[k].answer)),
                        None => {},
                    }
                    let more = contexts(listed);
                    let ghost before = views(names@);
                    let mut k: usize = 0;
                    while k < more.len()
                        invariant
                            k <= more@.len(),
                            views(names@) == before + views(more@).take(k as int),
                        decreases more.len() - k,
                    {
                        let ghost prior = views(names@);
                        names.push(more[k].clone());
                        proof {
                            assert(views(names@) =~= prior.push(more@[k as int]@));
                            assert(views(more@).take(k + 1) =~= views(more@).take(k as int).push(more@[k as int]@));
                        }
                        k = k + 1;
                    }
                    proof {
                        assert(views(more@).take(more@.len() as int) =~= views(more@));
                    }
                },
            }
        } else {
            proof {
                assert(views(names@) =~= views(names@) + Seq::<Seq<char>>::empty());
            }
        }
        i = i + 1;
    }
    proof {
        assert(given@.take(given@.len() as int) =~= given@);
    }
    Ok(text::sorted_distinct(&names))
}

/// The job a check ran as, read off the link the host reports for it: the digits
/// after the last `/job/`. A link that names none is refused.
pub fn job_of_link(name: &str, link: &str) -> (r: Result<String>)
    ensures
        match text::spec_rsplit_once_at(link@, "/job/"@) {
            Some((_, id)) => if id.len() > 0 && (forall|i: int| 0 <= i < id.len() ==> text::spec_is_ascii_digit(#[trigger] id[i])) {
                r is Ok && r->Ok_0@ == id
            } else {
                r is Err
            },
            None => r is Err,
        },
        r is Err ==> crate::git::spec_refused(r->Err_0, spec_no_job(name@, link@)),
{
    let id = match text::rsplit_once_at(link, "/job/") {
        Some((_, id)) => id,
        None => return Err(no_job(name, link)),
    };
    let ghost found = text::spec_rsplit_once_at(link@, "/job/"@);
    let chars = text::chars_of(&id);
    if chars.len() == 0 {
        return Err(no_job(name, link));
    }
    let mut i: usize = 0;
    while i < chars.len()
        invariant
            found == text::spec_rsplit_once_at(link@, "/job/"@),
            found is Some && found->Some_0.1 == id@,
            i <= chars@.len(),
            chars@ == id@,
            forall|j: int| 0 <= j < i ==> text::spec_is_ascii_digit(#[trigger] chars@[j]),
        decreases chars.len() - i,
    {
        if !text::is_ascii_digit(chars[i]) {
            return Err(no_job(name, link));
        }
        i = i + 1;
    }
    Ok(id)
}

/// What a check whose link names no job is refused as.
pub open spec fn spec_no_job(name: Seq<char>, link: Seq<char>) -> Seq<char> {
    "the host says check "@ + text::spec_debug_quoted(name) + " ran at "@ + text::spec_debug_quoted(link)
        + ", which names no job this build can ask for a log"@
}

fn no_job(name: &str, link: &str) -> (e: Error)
    ensures
        crate::git::spec_refused(e, spec_no_job(name@, link@)),
{
    let mut reason = text::concat3("the host says check ", &text::debug_quoted(name), " ran at ");
    reason.append(&text::debug_quoted(link));
    reason.append(", which names no job this build can ask for a log");
    Error::Invalid { reason }
}

/// Text that names a number: non-empty, and ASCII digits throughout.
pub open spec fn spec_is_number(s: Seq<char>) -> bool {
    s.len() > 0 && forall|i: int| 0 <= i < s.len() ==> text::spec_is_ascii_digit(#[trigger] s[i])
}

/// Whether text names a number.
pub fn is_number(s: &str) -> (b: bool)
    ensures
        b == spec_is_number(s@),
{
    let chars = text::chars_of(s);
    if chars.len() == 0 {
        return false;
    }
    let mut i: usize = 0;
    while i < chars.len()
        invariant
            i <= chars@.len(),
            chars@ == s@,
            forall|j: int| 0 <= j < i ==> text::spec_is_ascii_digit(#[trigger] chars@[j]),
        decreases chars.len() - i,
    {
        if !text::is_ascii_digit(chars[i]) {
            return false;
        }
        i = i + 1;
    }
    true
}

/// Who `gh` is signed in as, off what `gh api user --jq .login` printed: the
/// output trimmed, refused where that leaves nothing.
pub fn authenticated_user(printed: &str) -> (r: Result<String>)
    ensures
        text::spec_trim(printed@).len() > 0 ==> r is Ok && r->Ok_0@ == text::spec_trim(printed@),
        text::spec_trim(printed@).len() == 0 ==> r is Err && crate::git::spec_refused(
            r->Err_0,
            "gh reported no authenticated user"@,
        ),
{
    let login = text::trim(printed);
    if text::chars_of(&login).len() == 0 {
        return Err(Error::Invalid { reason: text::owned("gh reported no authenticated user") });
    }
    Ok(login)
}

/// The last line, trimmed, that begins `http`.
pub open spec fn spec_last_http_line(lines: Seq<Seq<char>>) -> Option<Seq<char>>
    decreases lines.len(),
{
    if lines.len() == 0 {
        None
    } else if text::spec_starts_with(text::spec_trim(lines.last()), "http"@) {
        Some(text::spec_trim(lines.last()))
    } else {
        spec_last_http_line(lines.drop_last())
    }
}

/// The address `gh pr create` printed: its last line, trimmed, that begins `http`.
pub fn printed_url(printed: &str) -> (r: Result<String>)
    ensures
        match spec_last_http_line(text::spec_lines(printed@)) {
            Some(u) => r is Ok && r->Ok_0@ == u,
            None => r is Err && crate::git::spec_refused(
                r->Err_0,
                "gh pr create printed no URL: "@ + text::spec_debug_quoted(printed@),
            ),
        },
{
    let lines = text::lines(printed);
    let mut k: usize = lines.len();
    proof {
        assert(views(lines@).take(k as int) =~= views(lines@));
    }
    while k > 0
        invariant
            k <= lines@.len(),
            views(lines@) == text::spec_lines(printed@),
            spec_last_http_line(views(lines@)) == spec_last_http_line(views(lines@).take(k as int)),
        decreases k,
    {
        proof {
            assert(views(lines@).take(k as int).drop_last() =~= views(lines@).take(k - 1));
            assert(views(lines@).take(k as int).last() == lines@[k - 1]@);
        }
        let line = text::trim(&lines[k - 1]);
        if text::str_starts_with(&line, "http") {
            return Ok(line);
        }
        k = k - 1;
    }
    Err(Error::Invalid { reason: text::concat("gh pr create printed no URL: ", &text::debug_quoted(printed)) })
}

/// What `gh pr create` printed, read as the change request it opened: the address
/// it printed, parsed, and the number that address ends in.
pub open spec fn spec_opened(printed: Seq<char>) -> std::result::Result<(Seq<char>, Seq<char>), Seq<char>> {
    match spec_last_http_line(text::spec_lines(printed)) {
        None => Err("gh pr create printed no URL: "@ + text::spec_debug_quoted(printed)),
        Some(u) => match spec_url_parts(u) {
            Err(e) => Err("gh pr create printed "@ + text::spec_debug_quoted(u) + ", not a URL: "@ + e),
            Ok((parsed, last)) => if last is Some && spec_is_number(last->Some_0) {
                Ok((last->Some_0, parsed))
            } else {
                Err("gh pr create printed "@ + text::spec_debug_quoted(u) + ", which names no change"@)
            },
        },
    }
}

/// The change request `gh pr create` opened, off what it printed: its number, the
/// last segment of the address it printed, and that address as the `url` crate
/// reads it. An address that ends in anything but a number names no change.
pub fn opened_change(printed: &str) -> (r: Result<(ChangeId, String)>)
    ensures
        match spec_opened(printed@) {
            Ok((id, url)) => r is Ok && r->Ok_0.0.0@ == id && r->Ok_0.1@ == url,
            Err(reason) => r is Err && crate::git::spec_refused(r->Err_0, reason),
        },
{
    let url = printed_url(printed)?;
    match url_parts(&url) {
        Err(e) => {
            let mut reason = text::concat3("gh pr create printed ", &text::debug_quoted(&url), ", not a URL: ");
            reason.append(&e);
            Err(Error::Invalid { reason })
        },
        Ok((parsed, last)) => {
            match last {
                Some(id) => {
                    if is_number(&id) {
                        return Ok((ChangeId(id), parsed));
                    }
                },
                None => {},
            }
            Err(
                Error::Invalid {
                    reason: text::concat3(
                        "gh pr create printed ",
                        &text::debug_quoted(&url),
                        ", which names no change",
                    ),
                },
            )
        },
    }
}

/// One change request of a `gh pr list` answer, as its fields arrived; `answer` is
/// the entry as the host wrote it.
#[derive(Debug, Clone)]
pub struct ListedChange {
    /// Its `number`.
    pub number: Option<u64>,
    /// Its `url`.
    pub url: Option<String>,
    /// Its `headRefOid`.
    pub head_ref_oid: Option<String>,
    /// The entry, as the host wrote it.
    pub answer: String,
}

/// A field's text, or nothing where it is absent.
pub open spec fn spec_or_empty(field: Option<String>) -> Seq<char> {
    match field {
        Some(v) => v@,
        None => Seq::empty(),
    }
}

/// What one listed change request reads as against `base`, or why it is refused;
/// `listing` is the whole answer it came in.
pub open spec fn spec_listed(item: ListedChange, base: Seq<char>, listing: Seq<char>) -> std::result::Result<
    (Seq<char>, Seq<char>, Seq<char>),
    Seq<char>,
> {
    match spec_url_parts(spec_or_empty(item.url)) {
        Err(e) => Err("gh pr list returned "@ + text::spec_debug_quoted(spec_or_empty(item.url)) + ", not a URL: "@ + e),
        Ok((parsed, _)) => match item.number {
            None => Err("gh pr list returned no number: "@ + text::spec_debug_quoted(listing)),
            Some(n) => match spec_present(item.head_ref_oid) {
                None => Err("gh returned a change request with no head: "@ + item.answer@),
                Some(head) => Ok((text::spec_decimal(n as nat), parsed, head)),
            },
        },
    }
}

/// Whether a change request is the one a listed entry reads as, against `base`.
pub open spec fn spec_is_listed(cr: ChangeRequest, item: ListedChange, base: Seq<char>, listing: Seq<char>) -> bool {
    match spec_listed(item, base, listing) {
        Ok((id, url, head)) => cr.id.0@ == id && cr.url@ == url && cr.head_sha.0@ == head && cr.base@ == base,
        Err(_) => false,
    }
}

/// One change request of a `gh pr list` answer (`listing`), targeting `base`: its
/// address must parse, and it must carry a number and a head.
pub fn listed_change(item: &ListedChange, base: &str, listing: &str) -> (r: Result<ChangeRequest>)
    ensures
        match spec_listed(*item, base@, listing@) {
            Ok(_) => r is Ok && spec_is_listed(r->Ok_0, *item, base@, listing@),
            Err(reason) => r is Err && crate::git::spec_refused(r->Err_0, reason),
        },
{
    let url = match &item.url {
        Some(u) => u.clone(),
        None => String::new(),
    };
    proof {
        assert(url@ == spec_or_empty(item.url));
    }
    let parsed = match url_parts(&url) {
        Err(e) => {
            let mut reason = text::concat3("gh pr list returned ", &text::debug_quoted(&url), ", not a URL: ");
            reason.append(&e);
            return Err(Error::Invalid { reason });
        },
        Ok((parsed, _)) => parsed,
    };
    let number = match item.number {
        None => {
            return Err(
                Error::Invalid { reason: text::concat("gh pr list returned no number: ", &text::debug_quoted(listing)) },
            )
        },
        Some(n) => n,
    };
    let head = head_sha(&item.head_ref_oid, &item.answer)?;
    Ok(ChangeRequest { id: ChangeId(text::decimal(number)), url: parsed, head_sha: head, base: text::owned(base) })
}

/// The first refusal among listed change requests, from `from` on.
pub open spec fn spec_first_unlisted(items: Seq<ListedChange>, base: Seq<char>, listing: Seq<char>, from: int) -> Option<
    Seq<char>,
>
    decreases items.len() - from,
{
    if from < 0 || from >= items.len() {
        None
    } else {
        match spec_listed(items[from], base, listing) {
            Err(reason) => Some(reason),
            Ok(_) => spec_first_unlisted(items, base, listing, from + 1),
        }
    }
}

/// The open change requests `gh pr list` reported (`items`, none where the answer
/// was not a list), each read against `base`; the first entry that is refused
/// refuses the whole listing.
pub fn listed_changes(items: Option<&[ListedChange]>, base: &str, listing: &str) -> (r: Result<Vec<ChangeRequest>>)
    ensures
        match items {
            None => r is Err && crate::git::spec_refused(
                r->Err_0,
                "gh pr list returned "@ + text::spec_debug_quoted(listing@) + ", not a list"@,
            ),
            Some(all) => match spec_first_unlisted(all@, base@, listing@, 0) {
                Some(reason) => r is Err && crate::git::spec_refused(r->Err_0, reason),
                None => r is Ok && r->Ok_0@.len() == all@.len() && forall|i: int|
                    0 <= i < all@.len() ==> spec_is_listed(#[trigger] r->Ok_0@[i], all@[i], base@, listing@),
            },
        },
{
    let all = match items {
        None => {
            return Err(
                Error::Invalid {
                    reason: text::concat3("gh pr list returned ", &text::debug_quoted(listing), ", not a list"),
                },
            )
        },
        Some(all) => all,
    };
    let mut changes: Vec<ChangeRequest> = Vec::new();
    let mut i: usize = 0;
    while i < all.len()
        invariant
            items == Some(all),
            i <= all@.len(),
            spec_first_unlisted(all@, base@, listing@, 0) == spec_first_unlisted(all@, base@, listing@, i as int),
            changes@.len() == i,
            forall|k: int| 0 <= k < i ==> spec_is_listed(#[trigger] changes@[k], all@[k], base@, listing@),
        decreases all.len() - i,
    {
        let change = listed_change(&all[i], base, listing)?;
        changes.push(change);
        i = i + 1;
    }
    Ok(changes)
}

/// What a change request whose head carries no check yet is refused as, quoting
/// what the host said (`said`).
pub open spec fn spec_unregistered(url: Seq<char>, said: Seq<char>) -> Seq<char> {
    "the host reports no check at all yet on the head of "@ + url + " ("@ + said
        + "), which is not the same as a repository that declares none required — it is what a head pushed moments ago looks like — so whether anything blocks the merge cannot be read from it"@
}

/// What a `gh pr checks --required` answer says before its list is read: `true`
/// where the list is to be read, `false` where the repository requires no check at
/// all. A head with no check on it yet is refused as too soon to tell; any other
/// failure, as an answer that does not say what blocks the merge.
pub fn required_answer(url: &str, answer: &Answer) -> (r: Result<bool>)
    ensures
        (answer.code == Some(0i32) || answer.code == Some(CHECKS_PENDING)) ==> r == Ok::<bool, Error>(true),
        !(answer.code == Some(0i32) || answer.code == Some(CHECKS_PENDING)) ==> if spec_failed_saying(*answer, NO_REQUIRED_CHECKS@) {
            r == Ok::<bool, Error>(false)
        } else if spec_failed_saying(*answer, NO_CHECKS_YET@) {
            r is Err && crate::git::spec_refused(r->Err_0, spec_unregistered(url@, text::spec_trim(answer.stderr@)))
        } else {
            r is Err && crate::git::spec_refused(
                r->Err_0,
                "gh pr checks --required answered about "@ + url@ + " with "@ + crate::gh::spec_detail(*answer)
                    + ", so a check it reported does not say whether it blocks the merge"@,
            )
        },
{
    if usable(answer) {
        return Ok(true);
    }
    if no_required_checks(answer) {
        return Ok(false);
    }
    if no_checks_yet(answer) {
        let mut reason = text::concat3("the host reports no check at all yet on the head of ", url, " (");
        reason.append(&text::trim(&answer.stderr));
        reason.append("), which is not the same as a repository that declares none required — it is what a head pushed moments ago looks like — so whether anything blocks the merge cannot be read from it",
        );
        return Err(Error::Invalid { reason });
    }
    Err(unsaid(url, &answer.detail()))
}

/// One entry of a `gh pr checks --json name` answer, as it arrived.
#[derive(Debug, Clone)]
pub struct NameAnswer {
    /// Its `name`.
    pub name: Option<String>,
    /// The entry, as the host wrote it.
    pub answer: String,
}

/// The first entry, from `from` on, that names no check.
pub open spec fn spec_first_nameless(entries: Seq<NameAnswer>, from: int) -> Option<int>
    decreases entries.len() - from,
{
    if from < 0 || from >= entries.len() {
        None
    } else if spec_present(entries[from].name) is None {
        Some(from)
    } else {
        spec_first_nameless(entries, from + 1)
    }
}

/// The names the entries carry, where they carry one.
pub open spec fn spec_entry_names(entries: Seq<NameAnswer>) -> Seq<Seq<char>>
    decreases entries.len(),
{
    if entries.len() == 0 {
        seq![]
    } else {
        spec_entry_names(entries.drop_last()) + match spec_present(entries.last().name) {
            Some(n) => seq![n],
            None => seq![],
        }
    }
}

/// The checks `gh pr checks --required` names as blocking the merge of the change
/// request at `url`, sorted and each once: `entries` is its list (none where the
/// answer, `value`, was not a list). An entry that names no check is refused rather
/// than skipped.
pub fn required_names(url: &str, entries: Option<&[NameAnswer]>, value: &str) -> (r: Result<Vec<String>>)
    ensures
        match entries {
            None => r is Err && crate::git::spec_refused(
                r->Err_0,
                "gh pr checks --required answered about "@ + url@ + " with "@ + value@
                    + ", so a check it reported does not say whether it blocks the merge"@,
            ),
            Some(all) => match spec_first_nameless(all@, 0) {
                Some(k) => r is Err && crate::git::spec_refused(
                    r->Err_0,
                    "gh pr checks --required answered about "@ + url@ + " with "@ + all@[k].answer@
                        + ", so a check it reported does not say whether it blocks the merge"@,
                ),
                None => r is Ok && text::spec_strictly_sorted(views(r->Ok_0@)) && views(r->Ok_0@).to_set()
                    == spec_entry_names(all@).to_set(),
            },
        },
{
    let all = match entries {
        None => return Err(unsaid(url, value)),
        Some(all) => all,
    };
    let mut names: Vec<String> = Vec::new();
    let mut i: usize = 0;
    while i < all.len()
        invariant
            entries == Some(all),
            i <= all@.len(),
            spec_first_nameless(all@, 0) == spec_first_nameless(all@, i as int),
            views(names@) == spec_entry_names(all@.take(i as int)),
        decreases all.len() - i,
    {
        proof {
            assert(all@.take(i + 1).drop_last() =~= all@.take(i as int));
        }
        match present(&all[i].name) {
            None => return Err(unsaid(url, &all[i].answer)),
            Some(n) => {
                let ghost before = views(names@);
                let ghost said = n@;
                names.push(n);
                proof {
                    assert(views(names@) =~= before + seq![said]);
                }
            },
        }
        i = i + 1;
    }
    proof {
        assert(all@.take(all@.len() as int) =~= all@);
    }
    Ok(text::sorted_distinct(&names))
}

/// What a `gh pr checks` that would not say where a check ran is refused as.
pub fn unlocated(name: &str, url: &str, answer: &Answer) -> (e: Error)
    ensures
        crate::git::spec_refused(
            e,
            "gh pr checks would not say where check "@ + text::spec_debug_quoted(name@) + " on "@ + url@ + " ran: "@
                + crate::gh::spec_detail(*answer),
        ),
{
    let mut reason = text::concat3("gh pr checks would not say where check ", &text::debug_quoted(name), " on ");
    reason.append(url);
    reason.append(" ran: ");
    reason.append(&answer.detail());
    Error::Invalid { reason }
}

/// One entry of a `gh pr checks --json name,link` answer, as it arrived.
#[derive(Debug, Clone)]
pub struct LinkAnswer {
    /// Its `name`.
    pub name: Option<String>,
    /// Its `link`.
    pub link: Option<String>,
}

/// The first entry, from `from` on, named exactly `name`.
pub open spec fn spec_first_named(entries: Seq<LinkAnswer>, name: Seq<char>, from: int) -> Option<int>
    decreases entries.len() - from,
{
    if from < 0 || from >= entries.len() {
        None
    } else if entries[from].name is Some && entries[from].name->Some_0@ == name {
        Some(from)
    } else {
        spec_first_named(entries, name, from + 1)
    }
}

/// Where the first entry named `name` ran, or why that cannot be read.
pub open spec fn spec_job_link(name: Seq<char>, url: Seq<char>, entries: Option<Seq<LinkAnswer>>, value: Seq<char>) -> std::result::Result<
    Seq<char>,
    Seq<char>,
> {
    match entries {
        None => Err(
            "gh pr checks returned a non-list of checks on "@ + url + ", so where check "@ + text::spec_debug_quoted(name)
                + " ran cannot be read from it: "@ + value,
        ),
        Some(all) => match spec_first_named(all, name, 0) {
            Some(k) if all[k].link is Some => Ok(all[k].link->Some_0@),
            _ => Err("the host reports no job for check "@ + text::spec_debug_quoted(name) + " on "@ + url),
        },
    }
}

/// Where check `name` on the change request at `url` ran, off `gh pr checks`'
/// answer (`entries`, none where the answer, `value`, was not a list): the link of
/// the first entry by that name. One that gives none is refused.
pub fn job_link(name: &str, url: &str, entries: Option<&[LinkAnswer]>, value: &str) -> (r: Result<String>)
    ensures
        match spec_job_link(name@, url@, match entries { Some(all) => Some(all@), None => None }, value@) {
            Ok(link) => r is Ok && r->Ok_0@ == link,
            Err(reason) => r is Err && crate::git::spec_refused(r->Err_0, reason),
        },
{
    let all = match entries {
        None => {
            let mut reason = text::concat3("gh pr checks returned a non-list of checks on ", url, ", so where check ");
            reason.append(&text::debug_quoted(name));
            reason.append(" ran cannot be read from it: ");
            reason.append(value);
            return Err(Error::Invalid { reason });
        },
        Some(all) => all,
    };
    let mut k: usize = 0;
    while k < all.len()
        invariant
            entries == Some(all),
            k <= all@.len(),
            spec_first_named(all@, name@, 0) == spec_first_named(all@, name@, k as int),
        decreases all.len() - k,
    {
        let named = match &all[k].name {
            Some(n) => text::str_eq(n, name),
            None => false,
        };
        if named {
            match &all[k].link {
                Some(link) => return Ok(link.clone()),
                None => return Err(jobless(name, url)),
            }
        }
        k = k + 1;
    }
    Err(jobless(name, url))
}

fn jobless(name: &str, url: &str) -> (e: Error)
    ensures
        crate::git::spec_refused(
            e,
            "the host reports no job for check "@ + text::spec_debug_quoted(name@) + " on "@ + url@,
        ),
{
    let mut reason = text::concat3("the host reports no job for check ", &text::debug_quoted(name), " on ");
    reason.append(url);
    Error::Invalid { reason }
}

/// What a credential that could get a check's log from neither source is refused
/// as, quoting both refusals.
pub fn neither_log(name: &str, url: &str, reported: &Error, actions: &Error) -> (e: Error)
    ensures
        crate::git::spec_refused(
            e,
            "neither of GitHub's check sources would produce the log of check "@ + text::spec_debug_quoted(name@) + " on "@
                + url@ + ": gh pr checks answered "@ + crate::error::spec_message(*reported)
                + ", and the Actions API answered "@ + crate::error::spec_message(*actions),
        ),
{
    let mut reason = text::concat3(
        "neither of GitHub's check sources would produce the log of check ",
        &text::debug_quoted(name),
        " on ",
    );
    reason.append(url);
    reason.append(": gh pr checks answered ");
    reason.append(&reported.message());
    reason.append(", and the Actions API answered ");
    reason.append(&actions.message());
    Error::Invalid { reason }
}

/// What a check whose log the host could not produce is refused as, quoting why.
pub fn no_log(name: &str, url: &str, error: &Error) -> (e: Error)
    ensures
        crate::git::spec_refused(
            e,
            "the host could not produce a log for check "@ + text::spec_debug_quoted(name@) + " on "@ + url@ + ": "@
                + crate::error::spec_message(*error),
        ),
{
    let mut reason = text::concat3("the host could not produce a log for check ", &text::debug_quoted(name), " on ");
    reason.append(url);
    reason.append(": ");
    reason.append(&error.message());
    Error::Invalid { reason }
}

/// The id of a workflow run the Actions API listed (`run`, the entry as written);
/// one without is refused.
pub fn run_id(id: Option<u64>, url: &str, run: &str) -> (r: Result<u64>)
    ensures
        match id {
            Some(n) => r == Ok::<u64, Error>(n),
            None => r is Err && crate::git::spec_refused(
                r->Err_0,
                "the Actions API reported a workflow run on "@ + url@ + " with no id: "@ + run@,
            ),
        },
{
    match id {
        Some(n) => Ok(n),
        None => {
            let mut reason = text::concat3("the Actions API reported a workflow run on ", url, " with no id: ");
            reason.append(run);
            Err(Error::Invalid { reason })
        },
    }
}

/// The first job, from `from` on, named exactly `name`.
pub open spec fn spec_first_job_named(jobs: Seq<Job>, name: Seq<char>, from: int) -> Option<int>
    decreases jobs.len() - from,
{
    if from < 0 || from >= jobs.len() {
        None
    } else if jobs[from].name@ == name {
        Some(from)
    } else {
        spec_first_job_named(jobs, name, from + 1)
    }
}

/// The id of the first Actions job named `name`, which its log is asked for by;
/// refused where no job on the head goes by that name.
pub fn job_named(jobs: &[Job], name: &str, url: &str) -> (r: Result<u64>)
    ensures
        match spec_first_job_named(jobs@, name@, 0) {
            Some(k) => r == Ok::<u64, Error>(jobs@[k].id),
            None => r is Err && crate::git::spec_refused(
                r->Err_0,
                "GitHub Actions reports no job named "@ + text::spec_debug_quoted(name@) + " on the head commit of "@
                    + url@,
            ),
        },
{
    let mut k: usize = 0;
    while k < jobs.len()
        invariant
            k <= jobs@.len(),
            spec_first_job_named(jobs@, name@, 0) == spec_first_job_named(jobs@, name@, k as int),
        decreases jobs.len() - k,
    {
        if text::str_eq(&jobs[k].name, name) {
            return Ok(jobs[k].id);
        }
        k = k + 1;
    }
    let mut reason = text::concat3("GitHub Actions reports no job named ", &text::debug_quoted(name), " on the head commit of ");
    reason.append(url);
    Err(Error::Invalid { reason })
}

/// What `gh pr view` reported under `statusCheckRollup`.
#[derive(Debug, Clone)]
pub enum Rollup {
    /// Nothing: the field is not there.
    Absent,
    /// `null`, which is how no check at all reads.
    Null,
    /// A list of entries.
    Listed(Vec<CheckAnswer>),
    /// Something else, as the host wrote it.
    Unlisted(String),
}

/// The entries of a reported rollup: none where it is `null`, and a refusal where it
/// is absent or not a list.
pub fn rollup_entries(url: &str, reported: Rollup) -> (r: Result<Vec<CheckAnswer>>)
    ensures
        match reported {
            Rollup::Absent => r is Err && crate::git::spec_refused(
                r->Err_0,
                "gh pr view reported no checks at all on "@ + url@,
            ),
            Rollup::Null => r is Ok && r->Ok_0@.len() == 0,
            Rollup::Listed(entries) => r is Ok && r->Ok_0@ == entries@,
            Rollup::Unlisted(value) => r is Err && crate::git::spec_refused(
                r->Err_0,
                "gh pr view returned a non-list rollup: "@ + value@,
            ),
        },
{
    match reported {
        Rollup::Absent => Err(Error::Invalid { reason: text::concat("gh pr view reported no checks at all on ", url) }),
        Rollup::Null => Ok(Vec::new()),
        Rollup::Listed(entries) => Ok(entries),
        Rollup::Unlisted(value) => Err(Error::Invalid { reason: text::concat("gh pr view returned a non-list rollup: ", &value) }),
    }
}

/// The first entry, from `from` on, that is refused.
pub open spec fn spec_first_refused_check(entries: Seq<CheckAnswer>, url: Seq<char>, from: int) -> Option<Seq<char>>
    decreases entries.len() - from,
{
    if from < 0 || from >= entries.len() {
        None
    } else {
        match spec_check_refusal(entries[from], url) {
            Some(reason) => Some(reason),
            None => spec_first_refused_check(entries, url, from + 1),
        }
    }
}

/// Every entry of a rollup read as a check, in order; the first entry that is
/// refused refuses the whole answer.
pub fn rollup_checks(entries: &[CheckAnswer], url: &str, required: &[String], head: Option<Sha>) -> (r: Result<
    Vec<Check>,
>)
    ensures
        match spec_first_refused_check(entries@, url@, 0) {
            Some(reason) => r is Err && crate::git::spec_refused(r->Err_0, reason),
            None => r is Ok && r->Ok_0@.len() == entries@.len() && forall|i: int|
                0 <= i < entries@.len() ==> spec_reads_as(entries@[i], views(required@), head, #[trigger] r->Ok_0@[i]),
        },
{
    let mut checks: Vec<Check> = Vec::new();
    let mut i: usize = 0;
    while i < entries.len()
        invariant
            i <= entries@.len(),
            spec_first_refused_check(entries@, url@, 0) == spec_first_refused_check(entries@, url@, i as int),
            checks@.len() == i,
            forall|k: int| 0 <= k < i ==> spec_reads_as(entries@[k], views(required@), head, #[trigger] checks@[k]),
        decreases entries.len() - i,
    {
        let c = check(&entries[i], url, required, copy_head(&head))?;
        checks.push(c);
        i = i + 1;
    }
    Ok(checks)
}

fn copy_head(head: &Option<Sha>) -> (r: Option<Sha>)
    ensures
        r == *head,
{
    match head {
        Some(h) => Some(Sha(h.0.clone())),
        None => None,
    }
}

/// An answer from the rollup alone, which is every check the host reports.
pub fn from_rollup(checks: Vec<Check>) -> (r: ChangeChecks)
    ensures
        r.checks@ == checks@,
        r.sources@ == seq![CheckSource::StatusChecks],
{
    ChangeChecks { checks, sources: vec![CheckSource::StatusChecks] }
}

/// A branch name a caller supplied, held to the parser that decides branch names
/// (`valid`, its answer): one git would not accept is refused, naming what it was
/// (`what`).
pub fn addressable_branch(value: &str, what: &str, valid: bool) -> (r: Result<()>)
    ensures
        valid ==> r is Ok,
        !valid ==> r is Err && crate::git::spec_refused(
            r->Err_0,
            what@ + " "@ + text::spec_debug_quoted(value@) + " is a name git would not accept"@,
        ),
{
    if valid {
        return Ok(());
    }
    let mut reason = text::concat3(what, " ", &text::debug_quoted(value));
    reason.append(" is a name git would not accept");
    Err(Error::Invalid { reason })
}

} // verus!
