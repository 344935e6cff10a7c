//! What the command line's verbs decide on their own: which body a publication was
//! handed and how, whether a draft reason has a draft to carry it, which identities
//! a retirement pass covers, and how the answers they print are spelled.

use vstd::prelude::*;

use crate::change::SessionChange;
use crate::error::{Error, Result};
use crate::git::spec_refused;
use crate::guidance;
use crate::label::{self, LabelMap};
use crate::text::{self, views};

verus! {

fn push_line(lines: &mut Vec<String>, line: String)
    ensures
        views(final(lines)@) == views(old(lines)@).push(line@),
{
    let ghost before = views(lines@);
    let ghost said = line@;
    lines.push(line);
    proof {
        assert(views(lines@) =~= before.push(said));
    }
}

/// Where a publication's body comes from.
#[derive(Debug, Clone, PartialEq, Eq)]
pub enum BodySource {
    /// Nothing named one.
    Absent,
    /// `--body`, as typed.
    Text(String),
    /// `--body-file`, the path to read it from.
    File(String),
}

/// A verb's command prefix with one body option appended.
pub open spec fn spec_keeping(prefix: Seq<Seq<char>>, option: Seq<char>, value: Seq<char>) -> Seq<char> {
    guidance::spec_command(prefix.push(option).push(value))
}

fn keeping(prefix: &[String], option: &str, value: &str) -> (out: String)
    ensures
        out@ == spec_keeping(views(prefix@), option@, value@),
{
    let mut argv: Vec<String> = Vec::new();
    let mut i: usize = 0;
    while i < prefix.len()
        invariant
            i <= prefix@.len(),
            views(argv@) == views(prefix@).take(i as int),
        decreases prefix.len() - i,
    {
        push_line(&mut argv, prefix[i].clone());
        proof {
            assert(views(prefix@).take(i + 1) =~= views(prefix@).take(i as int).push(prefix@[i as int]@));
        }
        i = i + 1;
    }
    proof {
        assert(views(prefix@).take(prefix@.len() as int) =~= views(prefix@));
    }
    push_line(&mut argv, text::owned(option));
    push_line(&mut argv, text::owned(value));
    guidance::command_of(&argv)
}

/// What a call naming both `--body` and `--body-file` is refused as: the command
/// that keeps each, off the verb's own prefix.
pub open spec fn spec_two_bodies(prefix: Seq<Seq<char>>, path: Seq<char>) -> Seq<char> {
    "--body and --body-file both name the body of the change request, and it is opened with one body. Keep the one that holds it: `"@
        + spec_keeping(prefix, "--body-file"@, path) + "` for the body in "@ + path + ", or `"@ + spec_keeping(
        prefix,
        "--body"@,
        "TEXT"@,
    ) + "` for the text as typed"@
}

/// Which body a verb was handed: the text as typed, the file to read it from, or
/// none; both at once is refused by name, off the verb's command prefix (`prefix`).
pub fn explicit_body(prefix: &[String], body: Option<String>, body_file: Option<String>) -> (r: Result<
    BodySource,
>)
    ensures
        match (body, body_file) {
            (Some(_), Some(path)) => r is Err && spec_refused(r->Err_0, spec_two_bodies(views(prefix@), path@)),
            (Some(b), None) => r == Ok::<BodySource, Error>(BodySource::Text(b)),
            (None, Some(path)) => r == Ok::<BodySource, Error>(BodySource::File(path)),
            (None, None) => r == Ok::<BodySource, Error>(BodySource::Absent),
        },
{
    match (body, body_file) {
        (Some(_), Some(path)) => {
            let mut reason = text::owned(
                "--body and --body-file both name the body of the change request, and it is opened with one body. Keep the one that holds it: `",
            );
            reason.append(&keeping(prefix, "--body-file", &path));
            reason.append("` for the body in ");
            reason.append(&path);
            reason.append(", or `");
            reason.append(&keeping(prefix, "--body", "TEXT"));
            reason.append("` for the text as typed");
            Err(Error::Invalid { reason })
        },
        (Some(b), None) => Ok(BodySource::Text(b)),
        (None, Some(path)) => Ok(BodySource::File(path)),
        (None, None) => Ok(BodySource::Absent),
    }
}

/// The prefix `onevcs change describe` suggests a body under.
pub open spec fn spec_describe_prefix(token: Seq<char>) -> Seq<Seq<char>> {
    seq!["onevcs"@, "change"@, "describe"@, token]
}

/// What a description with no body is refused as.
pub open spec fn spec_no_description(token: Seq<char>) -> Seq<char> {
    "a description is the change request's body, and neither --body nor --body-file names one. Hand it over as a file — `"@
        + spec_keeping(spec_describe_prefix(token), "--body-file"@, "PATH"@) + "` — or as text: `"@ + spec_keeping(
        spec_describe_prefix(token),
        "--body"@,
        "TEXT"@,
    ) + "`"@
}

/// The body `onevcs change describe` was handed, which it must have been: a
/// description is a body, so neither option is refused by name, and both are
/// refused as every verb refuses them.
pub fn described_body(token: &str, body: Option<String>, body_file: Option<String>) -> (r: Result<BodySource>)
    ensures
        match (body, body_file) {
            (Some(_), Some(path)) => r is Err && spec_refused(
                r->Err_0,
                spec_two_bodies(spec_describe_prefix(token@), path@),
            ),
            (Some(b), None) => r == Ok::<BodySource, Error>(BodySource::Text(b)),
            (None, Some(path)) => r == Ok::<BodySource, Error>(BodySource::File(path)),
            (None, None) => r is Err && spec_refused(r->Err_0, spec_no_description(token@)),
        },
{
    let prefix = vec![text::owned("onevcs"), text::owned("change"), text::owned("describe"), text::owned(token)];
    proof {
        assert(views(prefix@) =~= spec_describe_prefix(token@));
    }
    match explicit_body(&prefix, body, body_file)? {
        BodySource::Absent => {
            let mut reason = text::owned(
                "a description is the change request's body, and neither --body nor --body-file names one. Hand it over as a file — `",
            );
            reason.append(&keeping(&prefix, "--body-file", "PATH"));
            reason.append("` — or as text: `");
            reason.append(&keeping(&prefix, "--body", "TEXT"));
            reason.append("`");
            Err(Error::Invalid { reason })
        },
        source => Ok(source),
    }
}

/// What `--draft` says when `--draft-reason` says nothing.
pub const DEFAULT_HELD_REASON: &'static str = "the session that opened this change request is holding it as a draft while its work is still being made";

/// What a draft reason with no draft to carry it is refused as.
pub open spec fn spec_reason_without_draft(token: Seq<char>) -> Seq<char> {
    "--draft-reason says why a draft is held, and nothing asked for a draft. Add --draft — `"@
        + guidance::spec_command(seq!["onevcs"@, "publish"@, token, "--draft"@, "--draft-reason"@, "TEXT"@])
        + "` — or drop the reason"@
}

/// Why a draft the session holds is held: none without `--draft`, the reason given
/// or else the default one with it, and a refusal for a reason with no draft.
pub fn held_draft(token: &str, draft: bool, reason: Option<&str>) -> (r: Result<Option<String>>)
    ensures
        !draft && reason is None ==> r is Ok && r->Ok_0 is None,
        !draft && reason is Some ==> r is Err && spec_refused(r->Err_0, spec_reason_without_draft(token@)),
        draft ==> r is Ok && r->Ok_0 is Some && r->Ok_0->Some_0@ == match reason {
            Some(given) => given@,
            None => DEFAULT_HELD_REASON@,
        },
{
    match (draft, reason) {
        (false, None) => Ok(None),
        (false, Some(_)) => {
            let argv = vec![
                text::owned("onevcs"),
                text::owned("publish"),
                text::owned(token),
                text::owned("--draft"),
                text::owned("--draft-reason"),
                text::owned("TEXT"),
            ];
            proof {
                assert(views(argv@) =~= seq!["onevcs"@, "publish"@, token@, "--draft"@, "--draft-reason"@, "TEXT"@]);
            }
            let reason = text::concat3(
                "--draft-reason says why a draft is held, and nothing asked for a draft. Add --draft — `",
                &guidance::command_of(&argv),
                "` — or drop the reason",
            );
            Err(Error::Invalid { reason })
        },
        (true, Some(given)) => Ok(Some(text::owned(given))),
        (true, None) => Ok(Some(text::owned(DEFAULT_HELD_REASON))),
    }
}

/// What `onevcs preserve` did with a branch.
#[derive(Debug, Clone, Copy, PartialEq, Eq, Structural)]
pub enum Preservation {
    /// It pushed the branch to the origin.
    Pushed,
    /// The origin already had it there.
    AlreadyOnOrigin,
    /// The checkout has no origin to push it to.
    NoRemote,
}

/// What preserving one branch came to.
#[derive(Debug, Clone)]
pub struct Preserved {
    /// The branch.
    pub branch: String,
    /// The identity it belongs to.
    pub identity: String,
    /// The remote it went to or was found on, where one was reached.
    pub remote: Option<String>,
    /// The commit it stands at.
    pub commit: Option<String>,
    /// The checkout it was pushed from.
    pub from: String,
    /// What was done.
    pub outcome: Preservation,
}

/// An optional field of an answer, where a rendering needs the value in it.
pub open spec fn spec_spelled(value: Option<String>) -> Seq<char> {
    match value {
        Some(v) => v@,
        None => "unrecorded"@,
    }
}

fn spelled(value: &Option<String>) -> (out: String)
    ensures
        out@ == spec_spelled(*value),
{
    match value {
        Some(v) => v.clone(),
        None => text::owned("unrecorded"),
    }
}

/// The line `onevcs preserve` answers with, for each of its three outcomes.
pub open spec fn spec_preserved_line(p: Preserved) -> Seq<char> {
    match p.outcome {
        Preservation::Pushed => "preserved: branch "@ + text::spec_debug_quoted(p.branch@) + " of "@ + p.identity@ + " is on "@
            + spec_spelled(p.remote) + " at "@ + spec_spelled(p.commit) + ", pushed from "@ + p.from@
            + ". Nothing was published — no change request, no merge path, no base touched — so it still needs the verb `onevcs recoverable` names to land it"@,
        Preservation::AlreadyOnOrigin => "already on origin: "@ + spec_spelled(p.remote) + " carries branch "@
            + text::spec_debug_quoted(p.branch@) + " of "@ + p.identity@ + " at "@ + spec_spelled(p.commit)
            + ", so nothing was pushed"@,
        Preservation::NoRemote => "no remote: "@ + p.from@ + " holds branch "@ + text::spec_debug_quoted(p.branch@) + " of "@
            + p.identity@ + " at "@ + spec_spelled(p.commit)
            + " and has no `origin` to push it to, so nothing was attempted and nothing outside this host carries that commit"@,
    }
}

impl Preserved {
    /// The line `onevcs preserve` answers with.
    pub fn describe(&self) -> (out: String)
        ensures
            out@ == spec_preserved_line(*self),
    {
        let branch = text::debug_quoted(&self.branch);
        let commit = spelled(&self.commit);
        match self.outcome {
            Preservation::Pushed => {
                let mut out = text::concat3("preserved: branch ", &branch, " of ");
                out.append(&self.identity);
                out.append(" is on ");
                out.append(&spelled(&self.remote));
                out.append(" at ");
                out.append(&commit);
                out.append(", pushed from ");
                out.append(&self.from);
                out.append(". Nothing was published — no change request, no merge path, no base touched — so it still needs the verb `onevcs recoverable` names to land it",
                );
                out
            },
            Preservation::AlreadyOnOrigin => {
                let mut out = text::concat3("already on origin: ", &spelled(&self.remote), " carries branch ");
                out.append(&branch);
                out.append(" of ");
                out.append(&self.identity);
                out.append(" at ");
                out.append(&commit);
                out.append(", so nothing was pushed");
                out
            },
            Preservation::NoRemote => {
                let mut out = text::concat3("no remote: ", &self.from, " holds branch ");
                out.append(&branch);
                out.append(" of ");
                out.append(&self.identity);
                out.append(" at ");
                out.append(&commit);
                out.append(" and has no `origin` to push it to, so nothing was attempted and nothing outside this host carries that commit",
                );
                out
            },
        }
    }
}

/// One change request as the `change` verbs print it for a person: its fields a
/// line each, and its body last and whole, each of its lines indented.
pub open spec fn spec_change_lines(change: SessionChange) -> Seq<Seq<char>> {
    seq![
        "change request: "@ + change.url@,
        "id: "@ + change.id.0@,
        "base: "@ + change.base@,
        "draft: "@ + if change.draft {
            "yes (the host holds it as a draft)"@
        } else {
            "no (open for review)"@
        },
        "title: "@ + change.title@,
        "body:"@,
    ] + text::spec_lines(change.body@).map_values(|line: Seq<char>| "  "@ + line)
}

/// One change request as the `change` verbs print it for a person.
pub fn change_lines(change: &SessionChange) -> (out: Vec<String>)
    ensures
        views(out@) == spec_change_lines(*change),
{
    let mut out: Vec<String> = Vec::new();
    push_line(&mut out, text::concat("change request: ", &change.url));
    push_line(&mut out, text::concat("id: ", &change.id.0));
    push_line(&mut out, text::concat("base: ", &change.base));
    push_line(
        &mut out,
        text::concat(
            "draft: ",
            if change.draft {
                "yes (the host holds it as a draft)"
            } else {
                "no (open for review)"
            },
        ),
    );
    push_line(&mut out, text::concat("title: ", &change.title));
    push_line(&mut out, text::owned("body:"));
    let ghost head = views(out@);
    let body = text::lines(&change.body);
    let mut i: usize = 0;
    while i < body.len()
        invariant
            i <= body@.len(),
            views(body@) == text::spec_lines(change.body@),
            views(out@) == head + views(body@).take(i as int).map_values(|line: Seq<char>| "  "@ + line),
        decreases body.len() - i,
    {
        push_line(&mut out, text::concat("  ", &body[i]));
        proof {
            assert(views(body@).take(i + 1) =~= views(body@).take(i as int).push(body@[i as int]@));
            assert(views(body@).take(i + 1).map_values(|line: Seq<char>| "  "@ + line) =~= views(body@).take(
                i as int,
            ).map_values(|line: Seq<char>| "  "@ + line).push("  "@ + body@[i as int]@));
        }
        i = i + 1;
    }
    proof {
        assert(views(body@).take(body@.len() as int) =~= views(body@));
        assert(views(out@) =~= spec_change_lines(*change));
    }
    out
}

/// What `onevcs change show` says of a session with no change request: an answer,
/// not a refusal.
pub fn no_change(token: &str) -> (out: String)
    ensures
        out@ == "session "@ + token@ + " has no open change request on the host"@,
{
    text::concat3("session ", token, " has no open change request on the host")
}

/// The identities a retirement pass covers: the one `--repo` resolved to
/// (`named`), or else every identity a registered checkout belongs to
/// (`checkout_identities`), each once and in order.
pub fn pass_identities(named: Option<String>, checkout_identities: &[String]) -> (out: Vec<String>)
    ensures
        match named {
            Some(key) => views(out@) == seq![key@],
            None => text::spec_strictly_sorted(views(out@)) && forall|x: Seq<char>|
                views(out@).contains(x) <==> views(checkout_identities@).contains(x),
        },
{
    match named {
        Some(key) => {
            let mut out: Vec<String> = Vec::new();
            push_line(&mut out, key);
            out
        },
        None => text::sorted_distinct(checkout_identities),
    }
}

/// Every branch a pass excludes, in every identity it covers: each identity paired
/// with each excluded branch, identity by identity.
pub open spec fn spec_exclusions(identities: Seq<Seq<char>>, excluded: Seq<Seq<char>>) -> Seq<(Seq<char>, Seq<char>)>
    decreases identities.len(),
{
    if identities.len() == 0 {
        seq![]
    } else {
        spec_exclusions(identities.drop_last(), excluded) + excluded.map_values(
            |b: Seq<char>| (identities.last(), b),
        )
    }
}

/// Every branch a pass excludes, in every identity it covers.
pub fn exclusions(identities: &[String], excluded: &[String]) -> (out: Vec<(String, String)>)
    ensures
        text::pair_views(out@) == spec_exclusions(views(identities@), views(excluded@)),
{
    let mut out: Vec<(String, String)> = Vec::new();
    let mut i: usize = 0;
    while i < identities.len()
        invariant
            i <= identities@.len(),
            text::pair_views(out@) == spec_exclusions(views(identities@).take(i as int), views(excluded@)),
        decreases identities.len() - i,
    {
        proof {
            assert(views(identities@).take(i + 1).drop_last() =~= views(identities@).take(i as int));
            assert(views(identities@).take(i + 1).last() == identities@[i as int]@);
        }
        let ghost before = text::pair_views(out@);
        let ghost key = identities@[i as int]@;
        let mut k: usize = 0;
        while k < excluded.len()
            invariant
                k <= excluded@.len(),
                key == identities@[i as int]@,
                i < identities@.len(),
                text::pair_views(out@) == before + views(excluded@).take(k as int).map_values(
                    |b: Seq<char>| (key, b),
                ),
            decreases excluded.len() - k,
        {
            let ghost prior = out@;
            out.push((identities[i].clone(), excluded[k].clone()));
            proof {
                assert(text::pair_views(out@) =~= text::pair_views(prior).push((key, excluded@[k as int]@)));
                assert(views(excluded@).take(k + 1) =~= views(excluded@).take(k as int).push(excluded@[k as int]@));
                assert(views(excluded@).take(k + 1).map_values(|b: Seq<char>| (key, b)) =~= views(excluded@).take(
                    k as int,
                ).map_values(|b: Seq<char>| (key, b)).push((key, excluded@[k as int]@)));
            }
            k = k + 1;
        }
        proof {
            assert(views(excluded@).take(excluded@.len() as int) =~= views(excluded@));
        }
        i = i + 1;
    }
    proof {
        assert(views(identities@).take(identities@.len() as int) =~= views(identities@));
    }
    out
}

/// The line `onevcs supersede` answers with once the supersession is recorded.
pub fn supersession_recorded(branch: &str, by: &str, landing: &str) -> (out: String)
    ensures
        out@ == "recorded: "@ + branch@ + " is superseded by "@ + by@ + ", which landed at "@ + landing@,
{
    let mut out = text::concat3("recorded: ", branch, " is superseded by ");
    out.append(by);
    out.append(", which landed at ");
    out.append(landing);
    out
}

/// Where a failed publication left its branch.
#[derive(Debug, Clone, PartialEq, Eq)]
pub enum Retention {
    /// It was handed back to this checkout, which keeps it.
    HandedBack(String),
    /// This checkout refused it, so nothing outside the session carries it.
    Refused(String),
}

/// What a failed publication says on stderr: why, and where its branch is — or
/// that nothing outside the session carries it. A repository side with no checkout
/// to hand a branch back to says nothing of one.
pub open spec fn spec_failure_lines(reason: Seq<char>, branch: Seq<char>, retained: Option<Retention>) -> Seq<
    Seq<char>,
> {
    seq!["onevcs: "@ + reason] + match retained {
        Some(Retention::HandedBack(checkout)) => seq![
            "onevcs: branch "@ + text::spec_debug_quoted(branch) + " is preserved in "@ + checkout@,
        ],
        Some(Retention::Refused(checkout)) => seq![
            "onevcs: warning: "@ + checkout@ + " refused branch "@ + text::spec_debug_quoted(branch)
                + ", so nothing outside this session carries it"@,
        ],
        None => seq![],
    }
}

/// What a failed publication says on stderr, line by line.
pub fn failure_lines(reason: &str, branch: &str, retained: &Option<Retention>) -> (out: Vec<String>)
    ensures
        views(out@) == spec_failure_lines(reason@, branch@, *retained),
{
    let mut out: Vec<String> = Vec::new();
    push_line(&mut out, text::concat("onevcs: ", reason));
    match retained {
        Some(Retention::HandedBack(checkout)) => {
            let mut line = text::concat3("onevcs: branch ", &text::debug_quoted(branch), " is preserved in ");
            line.append(checkout);
            push_line(&mut out, line);
        },
        Some(Retention::Refused(checkout)) => {
            let mut line = text::concat3("onevcs: warning: ", checkout, " refused branch ");
            line.append(&text::debug_quoted(branch));
            line.append(", so nothing outside this session carries it");
            push_line(&mut out, line);
        },
        None => {},
    }
    proof {
        assert(views(out@) =~= spec_failure_lines(reason@, branch@, *retained));
    }
    out
}

/// Whether an event filter named on the command line is the filter itself, inline,
/// rather than the path of a file holding one: decided by the text — it opens with
/// `{` once leading whitespace is passed over — and never by what is on disk.
pub fn filter_is_inline(spec: &str) -> (b: bool)
    ensures
        b == text::spec_starts_with(text::spec_trim_start(spec@), seq!['{']),
{
    let trimmed = text::trim_start(spec);
    let chars = text::chars_of(&trimmed);
    let open = vec!['{'];
    proof {
        assert(open@ =~= seq!['{']);
    }
    text::starts_with(&chars, &open)
}

/// Where a session is in its life.
#[derive(Debug, Clone, Copy, PartialEq, Eq, Structural)]
pub enum Lifecycle {
    /// It is open.
    Open,
    /// It was closed.
    Closed,
}

/// One session holding a worktree of a repository, as `session holders` lists it.
#[derive(Debug)]
pub struct SessionHolder {
    /// Its token.
    pub token: String,
    /// Whether it is open.
    pub state: Lifecycle,
    /// Whether its owner is alive, in the word a listing uses.
    pub liveness: String,
    /// The process that owns it.
    pub owner_pid: u32,
    /// The branch it holds.
    pub branch: String,
    /// Its worktree.
    pub worktree: String,
    /// The labels its opener stamped, in key order.
    pub labels: LabelMap,
}

/// Labels as a human line carries them: `\tKEY=VALUE` each, and nothing for none.
pub open spec fn spec_spell_labels(labels: Seq<(Seq<char>, Seq<char>)>) -> Seq<char>
    decreases labels.len(),
{
    if labels.len() == 0 {
        Seq::empty()
    } else {
        spec_spell_labels(labels.drop_last()) + "\t"@ + labels.last().0 + "="@ + labels.last().1
    }
}

/// One holder's line: token, state, liveness, owner, branch and worktree, tab
/// separated, then its labels.
pub open spec fn spec_holder_line(h: SessionHolder) -> Seq<char> {
    h.token@ + "\t"@ + (match h.state {
        Lifecycle::Open => "open"@,
        Lifecycle::Closed => "closed"@,
    }) + "\t"@ + h.liveness@ + "\tpid="@ + text::spec_decimal(h.owner_pid as nat) + "\t"@ + h.branch@ + "\t"@
        + h.worktree@ + spec_spell_labels(h.labels@)
}

/// One holder's line, as `session holders` prints it.
pub fn holder_line(h: &SessionHolder) -> (out: String)
    ensures
        out@ == spec_holder_line(*h),
{
    let mut out = text::concat3(
        &h.token,
        "\t",
        match h.state {
            Lifecycle::Open => "open",
            Lifecycle::Closed => "closed",
        },
    );
    out.append("\t");
    out.append(&h.liveness);
    out.append("\tpid=");
    out.append(&text::decimal(h.owner_pid as u64));
    out.append("\t");
    out.append(&h.branch);
    out.append("\t");
    out.append(&h.worktree);
    let ghost head = out@;
    let mut i: usize = 0;
    while i < h.labels.len()
        invariant
            i <= h.labels@.len(),
            out@ == head + spec_spell_labels(h.labels@.take(i as int)),
        decreases h.labels@.len() - i,
    {
        proof {
            assert(h.labels@.take(i + 1).drop_last() =~= h.labels@.take(i as int));
        }
        let (key, value) = h.labels.entry(i);
        out.append("\t");
        out.append(key);
        out.append("=");
        out.append(value);
        proof {
            assert(out@ =~= head + spec_spell_labels(h.labels@.take(i + 1)));
        }
        i = i + 1;
    }
    proof {
        assert(h.labels@.take(h.labels@.len() as int) =~= h.labels@);
    }
    out
}

/// The holders a label filter (`wanted`) keeps, in the order they came: those that
/// carry every pair it asks for. A pair nothing carries keeps nobody, which is an
/// answer rather than a refusal.
pub fn holders_matching(holders: Vec<SessionHolder>, wanted: &LabelMap) -> (out: Vec<SessionHolder>)
    ensures
        out@ == holders@.filter(|h: SessionHolder| label::spec_matches(h.labels@, wanted@)),
{
    let ghost keep = |h: SessionHolder| label::spec_matches(h.labels@, wanted@);
    let ghost all = holders@;
    let mut rest = holders;
    let mut out: Vec<SessionHolder> = Vec::new();
    let mut i: usize = 0;
    let n = rest.len();
    while i < n
        invariant
            n == all.len(),
            i <= n,
            rest@ == all.skip(i as int),
            keep == (|h: SessionHolder| label::spec_matches(h.labels@, wanted@)),
            out@ == all.take(i as int).filter(keep),
        decreases n - i,
    {
        let holder = rest.remove(0);
        proof {
            assert(holder == all[i as int]);
            assert(all.take(i + 1) =~= all.take(i as int).push(all[i as int]));
            all.take(i as int).lemma_filter_push(all[i as int], keep);
        }
        if label::matches(&holder.labels, wanted) {
            out.push(holder);
        }
        i = i + 1;
        proof {
            assert(rest@ =~= all.skip(i as int));
        }
    }
    proof {
        assert(all.take(n as int) =~= all);
    }
    out
}

} // verus!
