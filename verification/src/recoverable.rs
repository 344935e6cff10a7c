//! The report of preserved work: every branch a session left behind that has not
//! reached its base, what stopped it, what became of it, and the one command that
//! lands it — or, where running that command would be wrong, why not.

use vstd::prelude::*;

use crate::guidance;
use crate::landed::{spec_evidence_commit, spec_evidence_tier, Landed};
use crate::text::{self, spec_join, views};

verus! {

/// Whether a preserved branch's last step finished.
#[derive(Debug, Clone, Copy, PartialEq, Eq, Structural)]
pub enum Provenance {
    /// The branch carries a marker saying a step was interrupted.
    IncompleteStep,
    /// The branch carries no such marker.
    Complete,
}

/// A preserved branch: its name, the base it was made against, and whether its
/// last step finished.
#[derive(Debug, Clone)]
pub struct PreservedBranch {
    /// The branch.
    pub branch: String,
    /// The base it would land on.
    pub base: String,
    /// Whether its last step finished.
    pub provenance: Provenance,
}

/// The live session that still holds a branch.
#[derive(Debug, Clone)]
pub struct HeldBy {
    /// The session's token.
    pub token: String,
    /// Why it counts as holding the branch, in words that follow "and".
    pub because: String,
    /// Its worktree.
    pub worktree: String,
}

/// A branch that removes more lines than it adds since it forked from its base.
#[derive(Debug, Clone, Copy, PartialEq, Eq, Structural)]
pub struct NetNegative {
    /// Lines it adds.
    pub added: u64,
    /// Lines it removes.
    pub removed: u64,
}

/// Where a branch was preserved on the origin.
#[derive(Debug, Clone)]
pub struct OnOrigin {
    /// The remote.
    pub remote: String,
    /// The commit the remote carries it at.
    pub commit: String,
}

/// The branch that superseded another, and where it landed.
#[derive(Debug, Clone)]
pub struct SupersededBy {
    /// The superseding branch.
    pub branch: String,
    /// The commit it landed at.
    pub landing: String,
    /// The labels its recorder stamped, spelled; empty where there were none.
    pub labels: String,
}

/// How a retirement pass classes a preserved branch.
#[derive(Debug, Clone, Copy, PartialEq, Eq, Structural)]
pub enum RetirementClass {
    /// It holds nothing beyond its base, so a pass may delete it.
    Retirable,
    /// It is kept.
    Keep,
    /// Another branch landed in its place, and it still differs from its base.
    SupersededWithChanges,
    /// Any other class, of which this report says nothing.
    Other,
}

/// Why a kept branch is kept, as far as this report tells reasons apart.
#[derive(Debug, Clone, Copy, PartialEq, Eq, Structural)]
pub enum KeepReason {
    /// It carries commits nothing else has: the work itself, which the rest of the
    /// row already speaks for.
    UnmergedUniqueCommits,
    /// Any other reason, which the verdict names.
    Other,
}

/// What a retirement pass made of a preserved branch.
#[derive(Debug, Clone)]
pub struct Retirement {
    /// Its class.
    pub class: RetirementClass,
    /// Why it is kept, where it is.
    pub reason: Option<KeepReason>,
    /// What proves it holds nothing beyond its base, described; none where nothing does.
    pub proof: Option<String>,
    /// The pass's verdict, in words.
    pub verdict: String,
    /// What superseded it, where something did.
    pub superseded_by: Option<SupersededBy>,
    /// The base it was compared with.
    pub base: String,
    /// The paths it still differs from that base in.
    pub differing_paths: Vec<String>,
}

/// One preserved branch, as the report lists it.
#[derive(Debug, Clone)]
pub struct Recoverable {
    /// The branch.
    pub branch: PreservedBranch,
    /// The identity it belongs to.
    pub identity: String,
    /// The checkout it was found in.
    pub checkout: String,
    /// The publication checkout its identity lands through — what every command the
    /// row prints takes as `--repo` — or the identity itself where none resolves.
    pub publication: String,
    /// Whether its work reached the base.
    pub landed: Landed,
    /// The live session that still holds it, where one does.
    pub held_by: Option<HeldBy>,
    /// Where it removes more than it adds.
    pub net_negative: Option<NetNegative>,
    /// Where the origin carries it.
    pub on_origin: Option<OnOrigin>,
    /// Why its session stopped.
    pub stopped_because: String,
    /// The command that lands it, as its arguments.
    pub recover_command: Vec<String>,
    /// What a retirement pass made of it, where one ran.
    pub retirement: Option<Retirement>,
}

fn push_line(lines: &mut Vec<String>, line: String)
    ensures
        views(final(lines)@) == views(old(lines)@).push(line@),
{
    let ghost before = views(lines@);
    let ghost said = line@;
    lines.push(line);
    proof {
        assert(views(lines@) =~= before.push(said));
    }
}

/// How a selection of sessions and labels is spelled on the command line.
pub open spec fn spec_selection_words(sessions: Seq<Seq<char>>, labels: Seq<(Seq<char>, Seq<char>)>) -> Seq<
    Seq<char>,
> {
    sessions.map_values(|t: Seq<char>| "--session "@ + t) + labels.map_values(
        |l: (Seq<char>, Seq<char>)| "--label "@ + l.0 + "="@ + l.1,
    )
}

/// What a report narrowed to some sessions says of itself: nothing where nothing
/// narrowed it.
pub open spec fn spec_selection_named(sessions: Seq<Seq<char>>, labels: Seq<(Seq<char>, Seq<char>)>) -> Option<
    Seq<char>,
> {
    if sessions.len() == 0 && labels.len() == 0 {
        None
    } else {
        Some(
            "Only the preserved branches of the sessions `"@ + spec_join(spec_selection_words(sessions, labels), " "@)
                + "` names are listed; nothing else here was looked at."@,
        )
    }
}

/// The sentence that names a selection, where the report was narrowed by one: the
/// sessions (`sessions`) and labels (`labels`) it was narrowed to.
pub fn selection_named(sessions: &[String], labels: &[(String, String)]) -> (r: Option<String>)
    ensures
        text::opt_view(r) == spec_selection_named(views(sessions@), text::pair_views(labels@)),
{
    if sessions.len() == 0 && labels.len() == 0 {
        return None;
    }
    let ghost all = spec_selection_words(views(sessions@), text::pair_views(labels@));
    let mut words: Vec<String> = Vec::new();
    let mut i: usize = 0;
    while i < sessions.len()
        invariant
            i <= sessions@.len(),
            views(words@) == views(sessions@).take(i as int).map_values(|t: Seq<char>| "--session "@ + t),
        decreases sessions.len() - i,
    {
        let word = text::concat("--session ", &sessions[i]);
        push_line(&mut words, word);
        proof {
            assert(views(sessions@).take(i + 1) =~= views(sessions@).take(i as int).push(sessions@[i as int]@));
            assert(views(sessions@).take(i + 1).map_values(|t: Seq<char>| "--session "@ + t) =~= views(
                sessions@,
            ).take(i as int).map_values(|t: Seq<char>| "--session "@ + t).push("--session "@ + sessions@[i as int]@));
        }
        i = i + 1;
    }
    proof {
        assert(views(sessions@).take(sessions@.len() as int) =~= views(sessions@));
    }
    let ghost spelled_sessions = views(words@);
    let mut k: usize = 0;
    while k < labels.len()
        invariant
            k <= labels@.len(),
            views(words@) == spelled_sessions + text::pair_views(labels@).take(k as int).map_values(
                |l: (Seq<char>, Seq<char>)| "--label "@ + l.0 + "="@ + l.1,
            ),
        decreases labels.len() - k,
    {
        let word = text::concat4("--label ", &labels[k].0, "=", &labels[k].1);
        push_line(&mut words, word);
        proof {
            assert(text::pair_views(labels@).take(k + 1) =~= text::pair_views(labels@).take(k as int).push(
                (labels@[k as int].0@, labels@[k as int].1@),
            ));
            assert(text::pair_views(labels@).take(k + 1).map_values(
                |l: (Seq<char>, Seq<char>)| "--label "@ + l.0 + "="@ + l.1,
            ) =~= text::pair_views(labels@).take(k as int).map_values(
                |l: (Seq<char>, Seq<char>)| "--label "@ + l.0 + "="@ + l.1,
            ).push("--label "@ + labels@[k as int].0@ + "="@ + labels@[k as int].1@));
        }
        k = k + 1;
    }
    proof {
        assert(text::pair_views(labels@).take(labels@.len() as int) =~= text::pair_views(labels@));
        assert(views(words@) =~= all);
    }
    let mut out = text::owned("Only the preserved branches of the sessions `");
    out.append(&text::join(&words, " "));
    out.append("` names are listed; nothing else here was looked at.");
    Some(out)
}

/// What a scoped report says it covers: the identity, and which of `--repo`
/// (`repo`) or the directory it was run in decided it.
pub open spec fn spec_scope_named(key: Seq<char>, publication: Seq<char>, repo: Option<Seq<char>>) -> Seq<char> {
    match repo {
        Some(r) => key + " — the identity `--repo "@ + r + "` names, whose publication checkout is "@ + publication,
        None => key + " — the identity of "@ + publication + ", the registered checkout this was run in"@,
    }
}

/// What a scoped report says it covers.
pub fn scope_named(key: &str, publication: &str, repo: Option<&str>) -> (out: String)
    ensures
        out@ == spec_scope_named(key@, publication@, text::opt_str_view(repo)),
{
    match repo {
        Some(r) => {
            let mut out = text::concat3(key, " — the identity `--repo ", r);
            out.append("` names, whose publication checkout is ");
            out.append(publication);
            out
        },
        None => {
            let mut out = text::concat3(key, " — the identity of ", publication);
            out.append(", the registered checkout this was run in");
            out
        },
    }
}

/// How a scoped report is widened, by whichever of `--repo` or the directory
/// scoped it.
pub open spec fn spec_widen(repo_named: bool) -> Seq<char> {
    if repo_named {
        "Only that identity is covered: run `onevcs recoverable` without `--repo`, from a directory outside every registered checkout, to see them all."@
    } else {
        "Only that identity is covered: run `onevcs recoverable` from a directory outside every registered checkout to see them all."@
    }
}

/// How a scoped report is widened.
pub fn widen(repo_named: bool) -> (out: &'static str)
    ensures
        out@ == spec_widen(repo_named),
{
    if repo_named {
        "Only that identity is covered: run `onevcs recoverable` without `--repo`, from a directory outside every registered checkout, to see them all."
    } else {
        "Only that identity is covered: run `onevcs recoverable` from a directory outside every registered checkout to see them all."
    }
}

/// What every report of unpublished work says it leaves out.
pub const WITHHELD: &'static str = "Branches whose work reached their base are not listed, nor are branches that provably hold nothing beyond it; `onevcs recoverable --all` lists every preserved branch, each saying what became of its work and what says so.";

/// How a row names its branch's provenance.
pub open spec fn spec_kind(p: Provenance) -> Seq<char> {
    match p {
        Provenance::IncompleteStep => "incomplete step (provenance marker)"@,
        Provenance::Complete => "complete"@,
    }
}

/// How a row names its branch's provenance.
pub fn kind(p: Provenance) -> (out: &'static str)
    ensures
        out@ == spec_kind(p),
{
    match p {
        Provenance::IncompleteStep => "incomplete step (provenance marker)",
        Provenance::Complete => "complete",
    }
}

/// What a landing adds to a row's header.
pub open spec fn spec_landed_marks(l: Landed) -> Seq<Seq<char>> {
    match l {
        Landed::Yes { evidence } => seq!["landed — "@ + spec_evidence_tier(evidence)],
        Landed::InPart { evidence, .. } => seq!["landed in part — "@ + spec_evidence_tier(evidence)],
        Landed::Unknown => seq!["may have landed"@],
        Landed::No => seq![],
    }
}

/// The marks on a row's header: what became of the work, whether a live session
/// holds it, whether it removes more than it adds, and whether the origin has it.
pub open spec fn spec_marks(row: Recoverable) -> Seq<Seq<char>> {
    spec_landed_marks(row.landed) + (if row.held_by is Some {
        seq!["held by a live session"@]
    } else {
        seq![]
    }) + match row.net_negative {
        Some(n) => seq![
            "net-negative: "@ + text::spec_decimal(n.added as nat) + " added, "@ + text::spec_decimal(n.removed as nat)
                + " removed"@,
        ],
        None => seq![],
    } + (if row.on_origin is Some {
        seq!["on origin"@]
    } else {
        seq![]
    })
}

/// A row's first line: the branch, its identity, its provenance, and its marks.
pub open spec fn spec_header(row: Recoverable) -> Seq<char> {
    row.branch.branch@ + "  ["@ + row.identity@ + "]  "@ + spec_kind(row.branch.provenance) + if spec_marks(
        row,
    ).len() == 0 {
        Seq::<char>::empty()
    } else {
        "  — "@ + spec_join(spec_marks(row), "; "@)
    }
}

fn marks(row: &Recoverable) -> (out: Vec<String>)
    ensures
        views(out@) == spec_marks(*row),
{
    let mut out: Vec<String> = Vec::new();
    match &row.landed {
        Landed::Yes { evidence } => push_line(&mut out, text::concat("landed — ", evidence.tier())),
        Landed::InPart { evidence, .. } => push_line(&mut out, text::concat("landed in part — ", evidence.tier())),
        Landed::Unknown => push_line(&mut out, text::owned("may have landed")),
        Landed::No => {},
    }
    if row.held_by.is_some() {
        push_line(&mut out, text::owned("held by a live session"));
    }
    match &row.net_negative {
        Some(n) => {
            let mut mark = text::concat3("net-negative: ", &text::decimal(n.added), " added, ");
            mark.append(&text::decimal(n.removed));
            mark.append(" removed");
            push_line(&mut out, mark);
        },
        None => {},
    }
    if row.on_origin.is_some() {
        push_line(&mut out, text::owned("on origin"));
    }
    proof {
        assert(views(out@) =~= spec_marks(*row));
    }
    out
}

/// A row's first line.
pub fn header(row: &Recoverable) -> (out: String)
    ensures
        out@ == spec_header(*row),
{
    let mut out = text::concat3(&row.branch.branch, "  [", &row.identity);
    out.append("]  ");
    out.append(kind(row.branch.provenance));
    let marked = marks(row);
    if marked.len() > 0 {
        out.append("  — ");
        out.append(&text::join(&marked, "; "));
    } else {
        proof {
            assert(out@ =~= out@ + Seq::<char>::empty());
        }
    }
    out
}

fn append_lines(lines: &mut Vec<String>, more: Vec<String>)
    ensures
        views(final(lines)@) == views(old(lines)@) + views(more@),
{
    let ghost start = views(lines@);
    let mut i: usize = 0;
    while i < more.len()
        invariant
            i <= more@.len(),
            views(lines@) == start + views(more@).take(i as int),
        decreases more.len() - i,
    {
        push_line(lines, more[i].clone());
        proof {
            assert(views(more@).take(i + 1) =~= views(more@).take(i as int).push(more@[i as int]@));
        }
        i = i + 1;
    }
    proof {
        assert(views(more@).take(more@.len() as int) =~= views(more@));
    }
}

/// The diff a row sends a reader to: the branch against its base, in its checkout.
pub open spec fn spec_diff(row: Recoverable) -> Seq<char> {
    guidance::spec_command(
        seq!["git"@, "-C"@, row.checkout@, "diff"@, "--stat"@, row.branch.base@ + "..."@ + row.branch.branch@],
    )
}

/// The command that lands a row's branch.
pub open spec fn spec_resume(row: Recoverable) -> Seq<char> {
    guidance::spec_command(views(row.recover_command@))
}

/// A verb of `onevcs` run over a row's branch, through its identity's publication
/// checkout.
pub open spec fn spec_over_branch(verb: Seq<char>, row: Recoverable) -> Seq<char> {
    guidance::spec_command(seq!["onevcs"@, verb, row.branch.branch@, "--repo"@, row.publication@])
}

fn diff_of(row: &Recoverable) -> (out: String)
    ensures
        out@ == spec_diff(*row),
{
    let range = text::concat3(&row.branch.base, "...", &row.branch.branch);
    let argv = vec![
        text::owned("git"),
        text::owned("-C"),
        row.checkout.clone(),
        text::owned("diff"),
        text::owned("--stat"),
        range,
    ];
    proof {
        assert(views(argv@) =~= seq![
            "git"@,
            "-C"@,
            row.checkout@,
            "diff"@,
            "--stat"@,
            row.branch.base@ + "..."@ + row.branch.branch@,
        ]);
    }
    guidance::command_of(&argv)
}

fn over_branch(verb: &str, row: &Recoverable) -> (out: String)
    ensures
        out@ == spec_over_branch(verb@, *row),
{
    let argv = vec![
        text::owned("onevcs"),
        text::owned(verb),
        row.branch.branch.clone(),
        text::owned("--repo"),
        row.publication.clone(),
    ];
    proof {
        assert(views(argv@) =~= seq!["onevcs"@, verb@, row.branch.branch@, "--repo"@, row.publication@]);
    }
    guidance::command_of(&argv)
}

/// What every row opens with: its header, where it was found, where the origin
/// has it, why it stopped, and what it removes where that outweighs what it adds.
pub open spec fn spec_opening(row: Recoverable) -> Seq<Seq<char>> {
    seq![spec_header(row), "    Found in: "@ + row.checkout@] + match row.on_origin {
        Some(o) => seq![
            "    On origin: "@ + o.remote@ + " carries it at "@ + o.commit@
                + ", put there by `onevcs preserve` and published by nothing. The work survives this host going away; landing it is still the command below"@,
        ],
        None => seq![],
    } + seq!["    Stopped because: "@ + row.stopped_because@] + match row.net_negative {
        Some(n) => seq![
            "    Net-negative: it removes "@ + text::spec_decimal(n.removed as nat) + " line(s) and adds "@
                + text::spec_decimal(n.added as nat) + " since it forked from "@ + row.branch.base@
                + ", so landing it unread would strip work. Read it first with `"@ + spec_diff(row) + "`"@,
        ],
        None => seq![],
    }
}

fn opening(row: &Recoverable) -> (out: Vec<String>)
    ensures
        views(out@) == spec_opening(*row),
{
    let mut out: Vec<String> = Vec::new();
    push_line(&mut out, header(row));
    push_line(&mut out, text::concat("    Found in: ", &row.checkout));
    let ghost first = views(out@);
    match &row.on_origin {
        Some(o) => {
            let mut line = text::concat3("    On origin: ", &o.remote, " carries it at ");
            line.append(&o.commit);
            line.append(", put there by `onevcs preserve` and published by nothing. The work survives this host going away; landing it is still the command below",
            );
            push_line(&mut out, line);
        },
        None => {},
    }
    push_line(&mut out, text::concat("    Stopped because: ", &row.stopped_because));
    match &row.net_negative {
        Some(n) => {
            let mut line = text::concat3("    Net-negative: it removes ", &text::decimal(n.removed), " line(s) and adds ");
            line.append(&text::decimal(n.added));
            line.append(" since it forked from ");
            line.append(&row.branch.base);
            line.append(", so landing it unread would strip work. Read it first with `");
            line.append(&diff_of(row));
            line.append("`");
            push_line(&mut out, line);
        },
        None => {},
    }
    proof {
        assert(views(out@) =~= spec_opening(*row));
    }
    out
}

/// What a retirement pass adds to a row, where it says something the rest of the
/// row does not: that the branch is retirable, or kept for a reason other than
/// the work it holds.
pub open spec fn spec_retirement_lines(row: Recoverable) -> Seq<Seq<char>> {
    match row.retirement {
        None => seq![],
        Some(r) => match r.class {
            RetirementClass::Retirable => seq![
                "    Retirable: it holds nothing beyond "@ + row.branch.base@ + " ("@ + match r.proof {
                    Some(p) => p@,
                    None => Seq::<char>::empty(),
                } + "); `"@ + spec_over_branch("retire"@, row) + "` deletes it everywhere this host holds it"@,
            ],
            RetirementClass::Keep => if r.reason == Some(KeepReason::Other) {
                seq!["    Kept: "@ + r.verdict@]
            } else {
                seq![]
            },
            _ => seq![],
        },
    }
}

fn retirement_lines(row: &Recoverable) -> (out: Vec<String>)
    ensures
        views(out@) == spec_retirement_lines(*row),
{
    let mut out: Vec<String> = Vec::new();
    match &row.retirement {
        None => {},
        Some(r) => match r.class {
            RetirementClass::Retirable => {
                let mut line = text::concat3("    Retirable: it holds nothing beyond ", &row.branch.base, " (");
                match &r.proof {
                    Some(p) => line.append(p),
                    None => {
                        proof {
                            assert(line@ =~= line@ + Seq::<char>::empty());
                        }
                    },
                }
                line.append("); `");
                line.append(&over_branch("retire", row));
                line.append("` deletes it everywhere this host holds it");
                push_line(&mut out, line);
            },
            RetirementClass::Keep => {
                let shown = match r.reason {
                    Some(KeepReason::Other) => true,
                    _ => false,
                };
                if shown {
                    push_line(&mut out, text::concat("    Kept: ", &r.verdict));
                }
            },
            _ => {},
        },
    }
    proof {
        assert(views(out@) =~= spec_retirement_lines(*row));
    }
    out
}

/// A superseded branch's `Reclaim:` line and the evidence it is decided on: what
/// superseded it and where that landed, the labels its recorder stamped, and the
/// paths it still differs from the base in.
pub open spec fn spec_reclaim_lines(row: Recoverable) -> Seq<Seq<char>> {
    match row.retirement {
        Some(r) => if r.class == RetirementClass::SupersededWithChanges {
            seq!["    Reclaim: "@ + spec_over_branch("reclaim"@, row)] + match r.superseded_by {
                Some(by) => seq!["      Superseded by: "@ + by.branch@ + " (landed at "@ + by.landing@ + ")"@] + if by.labels@.len()
                    > 0 {
                    seq!["      Labels: "@ + by.labels@]
                } else {
                    seq![]
                },
                None => seq![],
            } + seq!["      Differs from "@ + r.base@ + " in: "@ + spec_join(views(r.differing_paths@), ", "@)]
        } else {
            seq![]
        },
        None => seq![],
    }
}

fn reclaim_lines(row: &Recoverable) -> (out: Vec<String>)
    ensures
        views(out@) == spec_reclaim_lines(*row),
{
    let mut out: Vec<String> = Vec::new();
    match &row.retirement {
        Some(r) => {
            let superseded = match r.class {
                RetirementClass::SupersededWithChanges => true,
                _ => false,
            };
            if superseded {
                push_line(&mut out, text::concat("    Reclaim: ", &over_branch("reclaim", row)));
                match &r.superseded_by {
                    Some(by) => {
                        let mut line = text::concat3("      Superseded by: ", &by.branch, " (landed at ");
                        line.append(&by.landing);
                        line.append(")");
                        push_line(&mut out, line);
                        if text::chars_of(&by.labels).len() > 0 {
                            push_line(&mut out, text::concat("      Labels: ", &by.labels));
                        }
                    },
                    None => {},
                }
                let mut line = text::concat3("      Differs from ", &r.base, " in: ");
                line.append(&text::join(&r.differing_paths, ", "));
                push_line(&mut out, line);
            }
        },
        None => {},
    }
    proof {
        assert(views(out@) =~= spec_reclaim_lines(*row));
    }
    out
}

/// The line that says what to run, or — where a live session still holds the
/// branch — why not yet.
pub open spec fn spec_waiting(row: Recoverable) -> Seq<Seq<char>> {
    match row.held_by {
        Some(h) => seq![
            "    Not ready: session "@ + h.token@ + " still holds this branch and "@ + h.because@ + ", so running `"@
                + spec_resume(row) + "` now would publish a branch mid-flight. Its worktree is "@ + h.worktree@
                + "; wait for it, or close it with `"@ + guidance::spec_command(
                seq!["onevcs"@, "session"@, "close"@, h.token@],
            ) + "`, and then run that command"@,
        ],
        None => seq!["    Resume: "@ + spec_resume(row)],
    }
}

fn waiting(row: &Recoverable, resume: &str) -> (out: String)
    requires
        resume@ == spec_resume(*row),
    ensures
        seq![out@] == spec_waiting(*row),
{
    match &row.held_by {
        Some(h) => {
            let mut line = text::concat3("    Not ready: session ", &h.token, " still holds this branch and ");
            line.append(&h.because);
            line.append(", so running `");
            line.append(resume);
            line.append("` now would publish a branch mid-flight. Its worktree is ");
            line.append(&h.worktree);
            line.append("; wait for it, or close it with `");
            let close = vec![text::owned("onevcs"), text::owned("session"), text::owned("close"), h.token.clone()];
            proof {
                assert(views(close@) =~= seq!["onevcs"@, "session"@, "close"@, h.token@]);
            }
            line.append(&guidance::command_of(&close));
            line.append("`, and then run that command");
            line
        },
        None => text::concat("    Resume: ", resume),
    }
}

/// What a row whose work has not reached its base says after its landing: what a
/// retirement pass made of it, what to run, and how to reclaim it.
pub open spec fn spec_settled_tail(row: Recoverable) -> Seq<Seq<char>> {
    spec_retirement_lines(row) + spec_waiting(row) + spec_reclaim_lines(row)
}

/// Every line a row prints: its opening, and then by what became of its work — a
/// landed row says so and nothing more, a row landed in part names the landing and
/// goes on, an undecided row sends the reader to the diff before anything is run,
/// and an unlanded row says what to run.
pub open spec fn spec_row_lines(row: Recoverable) -> Seq<Seq<char>> {
    spec_opening(row) + match row.landed {
        Landed::Yes { evidence } => seq![
            "    Landed: "@ + spec_evidence_tier(evidence) + " ("@ + spec_evidence_commit(evidence)
                + ") says this branch's work reached "@ + row.branch.base@
                + ". Nothing to resume — publishing it again would re-open a change request for work "@
                + row.branch.base@ + " already carries"@,
        ],
        Landed::InPart { evidence, unlanded } => seq![
            "    Landed in part: "@ + spec_evidence_tier(evidence) + " ("@ + spec_evidence_commit(evidence)
                + ") says work of this branch reached "@ + row.branch.base@ + ", and it has "@
                + text::spec_decimal(unlanded as nat)
                + " commit(s) since that the landing does not carry. Those are what publishing it now would land"@,
        ] + spec_settled_tail(row),
        Landed::Unknown => seq![
            "    Not decided: nothing records that this branch's work reached "@ + row.branch.base@
                + " — no landing, no change request's number in "@ + row.branch.base@
                + "'s history, and no landing trailer — and comparing content settles nothing here, so "@
                + row.branch.base@ + " may already carry this work. Read it with `"@ + spec_diff(row)
                + "`; if it really has not landed, `"@ + spec_resume(row) + "` lands it"@,
        ] + spec_reclaim_lines(row),
        Landed::No => spec_settled_tail(row),
    }
}

/// Every line one row prints.
pub fn row_lines(row: &Recoverable) -> (out: Vec<String>)
    ensures
        views(out@) == spec_row_lines(*row),
{
    let mut out = opening(row);
    let resume = guidance::command_of(&row.recover_command);
    match &row.landed {
        Landed::Yes { evidence } => {
            let mut line = text::concat3("    Landed: ", evidence.tier(), " (");
            line.append(evidence.commit());
            line.append(") says this branch's work reached ");
            line.append(&row.branch.base);
            line.append(". Nothing to resume — publishing it again would re-open a change request for work ",
            );
            line.append(&row.branch.base);
            line.append(" already carries");
            push_line(&mut out, line);
            proof {
                assert(views(out@) =~= spec_row_lines(*row));
            }
            return out;
        },
        Landed::InPart { evidence, unlanded } => {
            let mut line = text::concat3("    Landed in part: ", evidence.tier(), " (");
            line.append(evidence.commit());
            line.append(") says work of this branch reached ");
            line.append(&row.branch.base);
            line.append(", and it has ");
            line.append(&text::decimal(*unlanded as u64));
            line.append(" commit(s) since that the landing does not carry. Those are what publishing it now would land",
            );
            push_line(&mut out, line);
        },
        Landed::Unknown => {
            let mut line = text::concat3(
                "    Not decided: nothing records that this branch's work reached ",
                &row.branch.base,
                " — no landing, no change request's number in ",
            );
            line.append(&row.branch.base);
            line.append("'s history, and no landing trailer — and comparing content settles nothing here, so ",
            );
            line.append(&row.branch.base);
            line.append(" may already carry this work. Read it with `");
            line.append(&diff_of(row));
            line.append("`; if it really has not landed, `");
            line.append(&resume);
            line.append("` lands it");
            push_line(&mut out, line);
            append_lines(&mut out, reclaim_lines(row));
            proof {
                assert(views(out@) =~= spec_row_lines(*row));
            }
            return out;
        },
        Landed::No => {},
    }
    append_lines(&mut out, retirement_lines(row));
    push_line(&mut out, waiting(row, &resume));
    append_lines(&mut out, reclaim_lines(row));
    proof {
        assert(views(out@) =~= spec_row_lines(*row));
    }
    out
}

/// The whole report: the rows, whether every preserved branch was asked for
/// (`all`) rather than only the unpublished ones, the identity it was scoped to
/// (`scoped`, as [`scope_named`] says it), the selection that narrowed it
/// (`narrowed`, as [`selection_named`] says it), and whether `--repo` did the
/// scoping (`repo_named`).
#[derive(Debug, Clone)]
pub struct RecoverableReport {
    /// The rows.
    pub rows: Vec<Recoverable>,
    /// Whether every preserved branch was asked for.
    pub all: bool,
    /// The identity it covers, said, where it covers one.
    pub scoped: Option<String>,
    /// The selection that narrowed it, said, where one did.
    pub narrowed: Option<String>,
    /// Whether `--repo` scoped it, rather than the directory it was run in.
    pub repo_named: bool,
}

/// Every row's lines, one row after another.
pub open spec fn spec_all_rows(rows: Seq<Recoverable>) -> Seq<Seq<char>>
    decreases rows.len(),
{
    if rows.len() == 0 {
        seq![]
    } else {
        spec_all_rows(rows.drop_last()) + spec_row_lines(rows.last())
    }
}

/// The lines a report ends with: what it withholds, where it lists only the
/// unpublished, and how to widen it, where it is scoped.
pub open spec fn spec_closing(rep: RecoverableReport) -> Seq<Seq<char>> {
    (if !rep.all {
        seq![WITHHELD@]
    } else {
        seq![]
    }) + (if rep.scoped is Some {
        seq![spec_widen(rep.repo_named)]
    } else {
        seq![]
    })
}

/// What an empty report says, in the one line that replaces its rows.
pub open spec fn spec_empty_line(rep: RecoverableReport) -> Seq<char> {
    let none = if rep.all {
        "No preserved branches"@
    } else {
        "No preserved unpublished branches"@
    };
    match (rep.scoped, rep.narrowed) {
        (Some(scoped), Some(narrowed)) => none + " in "@ + scoped@ + ". "@ + narrowed@,
        (None, Some(narrowed)) => none + " across the registered identities. "@ + narrowed@,
        (Some(scoped), None) => none + " in "@ + scoped@ + ". Every branch of it has reached its base or a remote."@,
        (None, None) => none + ". Every branch across the registered identities has reached its base or a remote."@,
    }
}

/// How a report with rows opens: how many, of what, and where.
pub open spec fn spec_count_line(rep: RecoverableReport) -> Seq<char> {
    text::spec_decimal(rep.rows@.len()) + " "@ + (if rep.all {
        "preserved branch(es), whatever became of the work"@
    } else {
        "preserved unpublished branch(es)"@
    }) + match rep.scoped {
        Some(scoped) => " in "@ + scoped@ + ":"@,
        None => " across every registered identity:"@,
    }
}

/// Every line the report prints.
pub open spec fn spec_report_lines(rep: RecoverableReport) -> Seq<Seq<char>> {
    if rep.rows@.len() == 0 {
        seq![spec_empty_line(rep)] + spec_closing(rep)
    } else {
        seq![spec_count_line(rep)] + match rep.narrowed {
            Some(n) => seq![n@],
            None => seq![],
        } + spec_all_rows(rep.rows@) + spec_closing(rep)
    }
}

/// What a report printed as JSON says beside the document, where a parser will not
/// meet it: what it covers, what narrowed it, and what it withholds.
pub open spec fn spec_json_notes(rep: RecoverableReport) -> Seq<Seq<char>> {
    (match rep.scoped {
        Some(scoped) => seq!["onevcs: this answer covers "@ + scoped@ + ". "@ + spec_widen(rep.repo_named)],
        None => seq![],
    }) + (match rep.narrowed {
        Some(n) => seq!["onevcs: "@ + n@],
        None => seq![],
    }) + (if !rep.all {
        seq!["onevcs: "@ + WITHHELD@]
    } else {
        seq![]
    })
}

impl RecoverableReport {
    fn closing(&self) -> (out: Vec<String>)
        ensures
            views(out@) == spec_closing(*self),
    {
        let mut out: Vec<String> = Vec::new();
        if !self.all {
            push_line(&mut out, text::owned(WITHHELD));
        }
        if self.scoped.is_some() {
            push_line(&mut out, text::owned(widen(self.repo_named)));
        }
        proof {
            assert(views(out@) =~= spec_closing(*self));
        }
        out
    }

    /// Every line the report prints, in the order it prints them.
    pub fn render(&self) -> (out: Vec<String>)
        ensures
            views(out@) == spec_report_lines(*self),
    {
        let mut out: Vec<String> = Vec::new();
        if self.rows.len() == 0 {
            let none = if self.all {
                "No preserved branches"
            } else {
                "No preserved unpublished branches"
            };
            let line = match (&self.scoped, &self.narrowed) {
                (Some(scoped), Some(narrowed)) => {
                    let mut line = text::concat4(none, " in ", scoped, ". ");
                    line.append(narrowed);
                    line
                },
                (None, Some(narrowed)) => text::concat3(none, " across the registered identities. ", narrowed),
                (Some(scoped), None) => text::concat4(
                    none,
                    " in ",
                    scoped,
                    ". Every branch of it has reached its base or a remote.",
                ),
                (None, None) => text::concat(
                    none,
                    ". Every branch across the registered identities has reached its base or a remote.",
                ),
            };
            push_line(&mut out, line);
            append_lines(&mut out, self.closing());
            proof {
                assert(views(out@) =~= spec_report_lines(*self));
            }
            return out;
        }
        let mut count = text::concat3(
            &text::decimal(self.rows.len() as u64),
            " ",
            if self.all {
                "preserved branch(es), whatever became of the work"
            } else {
                "preserved unpublished branch(es)"
            },
        );
        match &self.scoped {
            Some(scoped) => {
                count.append(" in ");
                count.append(scoped);
                count.append(":");
            },
            None => count.append(" across every registered identity:"),
        }
        proof {
            assert(count@ =~= spec_count_line(*self));
        }
        push_line(&mut out, count);
        match &self.narrowed {
            Some(n) => push_line(&mut out, n.clone()),
            None => {},
        }
        let ghost opened = views(out@);
        let mut i: usize = 0;
        while i < self.rows.len()
            invariant
                i <= self.rows@.len(),
                views(out@) == opened + spec_all_rows(self.rows@.take(i as int)),
            decreases self.rows.len() - i,
        {
            proof {
                assert(self.rows@.take(i + 1).drop_last() =~= self.rows@.take(i as int));
            }
            append_lines(&mut out, row_lines(&self.rows[i]));
            proof {
                assert(views(out@) =~= opened + spec_all_rows(self.rows@.take(i + 1)));
            }
            i = i + 1;
        }
        proof {
            assert(self.rows@.take(self.rows@.len() as int) =~= self.rows@);
        }
        append_lines(&mut out, self.closing());
        proof {
            assert(views(out@) =~= spec_report_lines(*self));
        }
        out
    }

    /// What the report says beside a JSON document, for stderr.
    pub fn json_notes(&self) -> (out: Vec<String>)
        ensures
            views(out@) == spec_json_notes(*self),
    {
        let mut out: Vec<String> = Vec::new();
        match &self.scoped {
            Some(scoped) => push_line(
                &mut out,
                text::concat4("onevcs: this answer covers ", scoped, ". ", widen(self.repo_named)),
            ),
            None => {},
        }
        match &self.narrowed {
            Some(n) => push_line(&mut out, text::concat("onevcs: ", n)),
            None => {},
        }
        if !self.all {
            push_line(&mut out, text::concat("onevcs: ", WITHHELD));
        }
        proof {
            assert(views(out@) =~= spec_json_notes(*self));
        }
        out
    }
}

/// A scoped report says so before its rows and again after them: its first line
/// names the identity it covers, and its last says how to see every identity — so a
/// report long enough to scroll past its header still ends by saying it is partial.
pub proof fn lemma_scope_said_twice(rep: RecoverableReport)
    requires
        rep.scoped is Some,
    ensures
        spec_report_lines(rep).len() >= 2,
        spec_report_lines(rep).last() == spec_widen(rep.repo_named),
        rep.rows@.len() > 0 ==> spec_report_lines(rep)[0] == text::spec_decimal(rep.rows@.len()) + " "@ + (if rep.all {
            "preserved branch(es), whatever became of the work"@
        } else {
            "preserved unpublished branch(es)"@
        }) + " in "@ + rep.scoped->Some_0@ + ":"@,
        rep.rows@.len() == 0 ==> text::spec_starts_with(
            spec_report_lines(rep)[0],
            (if rep.all {
                "No preserved branches"@
            } else {
                "No preserved unpublished branches"@
            }) + " in "@ + rep.scoped->Some_0@,
        ),
{
    let closing = spec_closing(rep);
    assert(closing.last() == spec_widen(rep.repo_named));
    let none = if rep.all {
        "No preserved branches"@
    } else {
        "No preserved unpublished branches"@
    };
    let opening = none + " in "@ + rep.scoped->Some_0@;
    if rep.rows@.len() == 0 {
        let first = spec_empty_line(rep);
        match rep.narrowed {
            Some(n) => assert(first =~= opening + (". "@ + n@)),
            None => assert(first =~= opening + ". Every branch of it has reached its base or a remote."@),
        }
        assert(first.take(opening.len() as int) =~= opening);
    } else {
        assert(spec_count_line(rep) =~= text::spec_decimal(rep.rows@.len()) + " "@ + (if rep.all {
            "preserved branch(es), whatever became of the work"@
        } else {
            "preserved unpublished branch(es)"@
        }) + " in "@ + rep.scoped->Some_0@ + ":"@);
    }
}

} // verus!
