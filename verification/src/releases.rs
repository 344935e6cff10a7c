//! How the release verbs spell their answers: what a repository publishes and
//! where each target came from, what is released right now, whether the release
//! carrying a landed change is out, and what an acknowledgement recorded.

use vstd::prelude::*;

use crate::declaration::{Declaration, FILE};
use crate::text::{self, spec_join, views};

verus! {

fn push_line(lines: &mut Vec<String>, line: String)
    ensures
        views(final(lines)@) == views(old(lines)@).push(line@),
{
    let ghost before = views(lines@);
    let ghost said = line@;
    lines.push(line);
    proof {
        assert(views(lines@) =~= before.push(said));
    }
}

/// What one target has released right now.
#[derive(Debug, Clone, PartialEq, Eq)]
pub enum ReleaseAnswer {
    /// This version is out.
    Released {
        /// The version.
        version: String,
    },
    /// Nothing has been released yet.
    NoRelease,
    /// The question could not be answered.
    NotAnswered {
        /// Why.
        reason: String,
    },
}

/// How one target's current release reads; "not answered" never reads as "no
/// release", since a consumer holds on the first and acts on the second.
pub open spec fn spec_answered(answer: ReleaseAnswer) -> Seq<char> {
    match answer {
        ReleaseAnswer::Released { version } => "released: "@ + version@,
        ReleaseAnswer::NoRelease => "no release yet"@,
        ReleaseAnswer::NotAnswered { reason } => "not answered: "@ + reason@,
    }
}

impl ReleaseAnswer {
    /// How this answer reads on a line.
    pub fn answered(&self) -> (out: String)
        ensures
            out@ == spec_answered(*self),
    {
        match self {
            ReleaseAnswer::Released { version } => text::concat("released: ", version),
            ReleaseAnswer::NoRelease => text::owned("no release yet"),
            ReleaseAnswer::NotAnswered { reason } => text::concat("not answered: ", reason),
        }
    }
}

/// What was released when a change landed.
#[derive(Debug, Clone, PartialEq, Eq)]
pub enum Baseline {
    /// This version was out.
    At {
        /// The version.
        version: String,
    },
    /// Nothing had been released.
    NoRelease,
}

/// A baseline, in the words a table names it by.
pub open spec fn spec_baseline(b: Baseline) -> Seq<char> {
    match b {
        Baseline::At { version } => version@,
        Baseline::NoRelease => "no release at landing"@,
    }
}

/// A baseline, in the words a table names it by.
pub fn spell_baseline(b: &Baseline) -> (out: String)
    ensures
        out@ == spec_baseline(*b),
{
    match b {
        Baseline::At { version } => version.clone(),
        Baseline::NoRelease => text::owned("no release at landing"),
    }
}

/// The version out right now, where there is one at all.
pub open spec fn spec_version(version: Seq<char>) -> Seq<char> {
    if version.len() == 0 {
        "no release"@
    } else {
        version
    }
}

/// The version out right now, where there is one at all.
pub fn spell_version(version: &str) -> (out: String)
    ensures
        out@ == spec_version(version@),
{
    if text::chars_of(version).len() == 0 {
        text::owned("no release")
    } else {
        text::owned(version)
    }
}

/// Whether the release carrying one landed change is out.
#[derive(Debug, Clone, PartialEq, Eq)]
pub enum ReleaseStatus {
    /// It is out.
    Released {
        /// The target it was released under.
        target: String,
        /// The target's release style.
        style: String,
        /// The version that carries it.
        version: String,
        /// Which layer put the target in the answer.
        source: String,
    },
    /// It is not out yet.
    NotReleased {
        /// What was out when it landed.
        at_landing: Baseline,
        /// What is out now, empty where nothing is.
        now: String,
    },
    /// Its release is a human step nobody has acknowledged yet.
    AwaitingHumanStep {
        /// The target.
        target: String,
        /// The step to take.
        action: String,
        /// Since when it has waited.
        since: String,
    },
    /// The question could not be answered.
    NotAnswered {
        /// Why.
        reason: String,
    },
    /// The change has not landed.
    NotLanded,
}

/// What `release status` prints; a human step's action on a second line.
pub open spec fn spec_status(status: ReleaseStatus) -> Seq<char> {
    match status {
        ReleaseStatus::Released { target, style, version, source } => "released: "@ + target@ + " "@ + version@ + " ("@
            + style@ + ", "@ + source@ + ")"@,
        ReleaseStatus::NotReleased { at_landing, now } => "not released: at landing "@ + spec_baseline(at_landing)
            + ", now "@ + spec_version(now@),
        ReleaseStatus::AwaitingHumanStep { target, action, since } => "awaiting human step: "@ + target@ + " since "@
            + since@ + "\n  action: "@ + action@,
        ReleaseStatus::NotAnswered { reason } => "not answered: "@ + reason@,
        ReleaseStatus::NotLanded => "not landed"@,
    }
}

impl ReleaseStatus {
    /// What `release status` prints.
    pub fn describe(&self) -> (out: String)
        ensures
            out@ == spec_status(*self),
    {
        match self {
            ReleaseStatus::Released { target, style, version, source } => {
                let mut out = text::concat4("released: ", target, " ", version);
                out.append(" (");
                out.append(style);
                out.append(", ");
                out.append(source);
                out.append(")");
                out
            },
            ReleaseStatus::NotReleased { at_landing, now } => {
                let mut out = text::concat3("not released: at landing ", &spell_baseline(at_landing), ", now ");
                out.append(&spell_version(now));
                out
            },
            ReleaseStatus::AwaitingHumanStep { target, action, since } => {
                let mut out = text::concat4("awaiting human step: ", target, " since ", since);
                out.append("\n  action: ");
                out.append(action);
                out
            },
            ReleaseStatus::NotAnswered { reason } => text::concat("not answered: ", reason),
            ReleaseStatus::NotLanded => text::owned("not landed"),
        }
    }
}

/// An acknowledgement a newer one replaced.
#[derive(Debug, Clone, PartialEq, Eq)]
pub struct SupersededRelease {
    /// The version it acknowledged.
    pub version: String,
    /// When it was recorded.
    pub recorded_at: String,
    /// Who recorded it.
    pub actor: String,
}

/// That somebody performed a human-step release, as recorded.
#[derive(Debug, Clone, PartialEq, Eq)]
pub struct Acknowledgement {
    /// The target released.
    pub target: String,
    /// The version released.
    pub version: String,
    /// The landing it carries.
    pub landing_commit: String,
    /// The identity it belongs to.
    pub identity: String,
    /// When it was recorded.
    pub recorded_at: String,
    /// Who recorded it.
    pub actor: String,
    /// The acknowledgements it replaced.
    pub superseded: Vec<SupersededRelease>,
}

/// How one replaced acknowledgement is listed.
pub open spec fn spec_superseded_line(s: SupersededRelease) -> Seq<char> {
    "  superseded: "@ + s.version@ + " recorded at "@ + s.recorded_at@ + " by "@ + s.actor@ + "\n"@
}

/// Every replaced acknowledgement's line, in order.
pub open spec fn spec_superseded_text(s: Seq<SupersededRelease>) -> Seq<char>
    decreases s.len(),
{
    if s.len() == 0 {
        Seq::empty()
    } else {
        spec_superseded_text(s.drop_last()) + spec_superseded_line(s.last())
    }
}

/// What `release acknowledge` prints: what was recorded, for which landing, by
/// whom, and every acknowledgement it replaced, a line each.
pub open spec fn spec_acknowledgement(a: Acknowledgement) -> Seq<char> {
    "acknowledged: "@ + a.target@ + " "@ + a.version@ + " for landing "@ + a.landing_commit@ + "\n  identity: "@
        + a.identity@ + "\n  recorded at: "@ + a.recorded_at@ + " by "@ + a.actor@ + "\n"@ + spec_superseded_text(
        a.superseded@,
    )
}

impl Acknowledgement {
    /// What `release acknowledge` prints.
    pub fn render(&self) -> (out: String)
        ensures
            out@ == spec_acknowledgement(*self),
    {
        let mut out = text::concat4("acknowledged: ", &self.target, " ", &self.version);
        out.append(" for landing ");
        out.append(&self.landing_commit);
        out.append("\n  identity: ");
        out.append(&self.identity);
        out.append("\n  recorded at: ");
        out.append(&self.recorded_at);
        out.append(" by ");
        out.append(&self.actor);
        out.append("\n");
        let ghost head = out@;
        let mut i: usize = 0;
        while i < self.superseded.len()
            invariant
                i <= self.superseded@.len(),
                out@ == head + spec_superseded_text(self.superseded@.take(i as int)),
            decreases self.superseded.len() - i,
        {
            proof {
                assert(self.superseded@.take(i + 1).drop_last() =~= self.superseded@.take(i as int));
            }
            let replaced = &self.superseded[i];
            let mut line = text::concat4("  superseded: ", &replaced.version, " recorded at ", &replaced.recorded_at);
            line.append(" by ");
            line.append(&replaced.actor);
            line.append("\n");
            out.append(&line);
            proof {
                assert(out@ =~= head + spec_superseded_text(self.superseded@.take(i + 1)));
            }
            i = i + 1;
        }
        proof {
            assert(self.superseded@.take(self.superseded@.len() as int) =~= self.superseded@);
        }
        out
    }
}

/// What the repository's own declaration contributed to its targets.
#[derive(Debug, Clone)]
pub enum DeclarationSource {
    /// It declared these, in this document.
    Declared {
        /// The document.
        document: String,
        /// What it declares.
        declared: Declaration,
    },
    /// There is no declaration where one would be.
    Undeclared {
        /// The directory looked in.
        looked_in: String,
    },
    /// There is one, and it could not be read.
    Unreadable {
        /// Why.
        reason: String,
    },
}

/// How a table says what the declaration contributed: three states, and a
/// declaration that could not be read never reads as one nobody wrote.
pub open spec fn spec_declaration_state(d: DeclarationSource) -> Seq<char> {
    match d {
        DeclarationSource::Declared { document, declared } => "declared: "@ + text::spec_decimal(
            declared.targets@.len(),
        ) + " target(s) in "@ + document@,
        DeclarationSource::Undeclared { looked_in } => "undeclared: no "@ + FILE@ + " in "@ + looked_in@,
        DeclarationSource::Unreadable { reason } => "unreadable: "@ + reason@,
    }
}

/// How a table says what the declaration contributed.
pub fn declaration_state(d: &DeclarationSource) -> (out: String)
    ensures
        out@ == spec_declaration_state(*d),
{
    match d {
        DeclarationSource::Declared { document, declared } => text::concat4(
            "declared: ",
            &text::decimal(declared.targets.len() as u64),
            " target(s) in ",
            document,
        ),
        DeclarationSource::Undeclared { looked_in } => text::concat4("undeclared: no ", FILE, " in ", looked_in),
        DeclarationSource::Unreadable { reason } => text::concat("unreadable: ", reason),
    }
}

/// What answers an automated target's question.
#[derive(Debug, Clone, PartialEq, Eq)]
pub enum Probe {
    /// A script in the repository, run with these arguments.
    Script {
        /// The script.
        script: String,
        /// Its arguments.
        args: Vec<String>,
    },
    /// A shell command.
    Shell {
        /// The command.
        shell: String,
    },
}

/// How a target is released.
#[derive(Debug, Clone, PartialEq, Eq)]
pub enum ReleaseMethod {
    /// Automatically, asked through a probe.
    Automated {
        /// The probe.
        probe: Probe,
    },
    /// By a person, who acknowledges it.
    HumanStep {
        /// What they do.
        action: String,
    },
}

/// How a table names what answers one target.
pub open spec fn spec_method(m: ReleaseMethod) -> Seq<char> {
    match m {
        ReleaseMethod::Automated { probe } => match probe {
            Probe::Script { script, args } => if args@.len() == 0 {
                "script "@ + script@
            } else {
                "script "@ + script@ + " "@ + spec_join(views(args@), " "@)
            },
            Probe::Shell { shell } => "shell "@ + shell@,
        },
        ReleaseMethod::HumanStep { action } => "action: "@ + action@,
    }
}

/// How a table names what answers one target.
pub fn describe_method(m: &ReleaseMethod) -> (out: String)
    ensures
        out@ == spec_method(*m),
{
    match m {
        ReleaseMethod::Automated { probe } => match probe {
            Probe::Script { script, args } => {
                if args.len() == 0 {
                    text::concat("script ", script)
                } else {
                    let mut out = text::concat3("script ", script, " ");
                    out.append(&text::join(args, " "));
                    out
                }
            },
            Probe::Shell { shell } => text::concat("shell ", shell),
        },
        ReleaseMethod::HumanStep { action } => text::concat("action: ", action),
    }
}

/// One target of a repository, as its table row reads it.
#[derive(Debug, Clone)]
pub struct TargetRow {
    /// Its name.
    pub name: String,
    /// Its release style.
    pub style: String,
    /// How it is released.
    pub release: ReleaseMethod,
    /// Which layer put it in the answer, where that is known.
    pub source: Option<String>,
}

/// What a repository publishes, and where each target came from.
#[derive(Debug, Clone)]
pub struct RepositoryReleases {
    /// The identity.
    pub identity: String,
    /// How the repository adopted its targets.
    pub adoption: String,
    /// Its default target, where it has one.
    pub default_target: Option<String>,
    /// What its own declaration contributed.
    pub declaration: DeclarationSource,
    /// Its targets.
    pub targets: Vec<TargetRow>,
}

/// One target's row.
pub open spec fn spec_target_row(t: TargetRow) -> Seq<char> {
    "  "@ + t.name@ + "\t"@ + t.style@ + "\t"@ + spec_method(t.release) + "\t"@ + match t.source {
        Some(s) => s@,
        None => "unknown"@,
    }
}

/// The table every rendering of a repository's targets shares: the identity, its
/// adoption, its default target, what its declaration contributed, and a row per
/// target — or that it has none.
pub open spec fn spec_releases_lines(r: RepositoryReleases) -> Seq<Seq<char>> {
    seq![
        "identity: "@ + r.identity@,
        "adoption: "@ + r.adoption@,
        "default target: "@ + match r.default_target {
            Some(t) => t@,
            None => "none"@,
        },
        "declaration: "@ + spec_declaration_state(r.declaration),
    ] + if r.targets@.len() == 0 {
        seq!["targets: none"@]
    } else {
        seq!["targets:"@] + r.targets@.map_values(|t: TargetRow| spec_target_row(t))
    }
}

fn target_row(t: &TargetRow) -> (out: String)
    ensures
        out@ == spec_target_row(*t),
{
    let mut out = text::concat4("  ", &t.name, "\t", &t.style);
    out.append("\t");
    out.append(&describe_method(&t.release));
    out.append("\t");
    match &t.source {
        Some(s) => out.append(s),
        None => out.append("unknown"),
    }
    out
}

impl RepositoryReleases {
    /// The table of this repository's targets, line by line.
    pub fn lines(&self) -> (out: Vec<String>)
        ensures
            views(out@) == spec_releases_lines(*self),
    {
        let mut out: Vec<String> = Vec::new();
        push_line(&mut out, text::concat("identity: ", &self.identity));
        push_line(&mut out, text::concat("adoption: ", &self.adoption));
        match &self.default_target {
            Some(t) => push_line(&mut out, text::concat("default target: ", t)),
            None => push_line(&mut out, text::concat("default target: ", "none")),
        }
        push_line(&mut out, text::concat("declaration: ", &declaration_state(&self.declaration)));
        if self.targets.len() == 0 {
            push_line(&mut out, text::owned("targets: none"));
            proof {
                assert(views(out@) =~= spec_releases_lines(*self));
            }
            return out;
        }
        push_line(&mut out, text::owned("targets:"));
        let ghost titled = views(out@);
        let mut i: usize = 0;
        while i < self.targets.len()
            invariant
                i <= self.targets@.len(),
                views(out@) == titled + self.targets@.take(i as int).map_values(|t: TargetRow| spec_target_row(t)),
            decreases self.targets.len() - i,
        {
            push_line(&mut out, target_row(&self.targets[i]));
            proof {
                assert(self.targets@.take(i + 1) =~= self.targets@.take(i as int).push(self.targets@[i as int]));
                assert(self.targets@.take(i + 1).map_values(|t: TargetRow| spec_target_row(t)) =~= self.targets@.take(
                    i as int,
                ).map_values(|t: TargetRow| spec_target_row(t)).push(spec_target_row(self.targets@[i as int])));
            }
            i = i + 1;
        }
        proof {
            assert(self.targets@.take(self.targets@.len() as int) =~= self.targets@);
            assert(views(out@) =~= spec_releases_lines(*self));
        }
        out
    }
}

/// What one target has released, beside its style.
#[derive(Debug, Clone)]
pub struct Released {
    /// The target.
    pub target: String,
    /// Its release style.
    pub style: String,
    /// What it has released right now.
    pub answer: ReleaseAnswer,
}

/// One released target's row.
pub open spec fn spec_released_row(r: Released) -> Seq<char> {
    "  "@ + r.target@ + "\t"@ + r.style@ + "\t"@ + spec_answered(r.answer)
}

/// `release discover`: the table of targets, then — where any target was asked —
/// what each has released right now.
pub open spec fn spec_discovery_lines(r: RepositoryReleases, released: Seq<Released>) -> Seq<Seq<char>> {
    spec_releases_lines(r) + if released.len() == 0 {
        seq![]
    } else {
        seq!["released:"@] + released.map_values(|x: Released| spec_released_row(x))
    }
}

/// What `release discover` prints, line by line.
pub fn discovery_lines(r: &RepositoryReleases, released: &[Released]) -> (out: Vec<String>)
    ensures
        views(out@) == spec_discovery_lines(*r, released@),
{
    let mut out = r.lines();
    if released.len() == 0 {
        proof {
            assert(views(out@) =~= spec_discovery_lines(*r, released@));
        }
        return out;
    }
    push_line(&mut out, text::owned("released:"));
    let ghost titled = views(out@);
    let mut i: usize = 0;
    while i < released.len()
        invariant
            i <= released@.len(),
            views(out@) == titled + released@.take(i as int).map_values(|x: Released| spec_released_row(x)),
        decreases released.len() - i,
    {
        let row = &released[i];
        let mut line = text::concat4("  ", &row.target, "\t", &row.style);
        line.append("\t");
        line.append(&row.answer.answered());
        push_line(&mut out, line);
        proof {
            assert(released@.take(i + 1) =~= released@.take(i as int).push(released@[i as int]));
            assert(released@.take(i + 1).map_values(|x: Released| spec_released_row(x)) =~= released@.take(
                i as int,
            ).map_values(|x: Released| spec_released_row(x)).push(spec_released_row(released@[i as int])));
        }
        i = i + 1;
    }
    proof {
        assert(released@.take(released@.len() as int) =~= released@);
        assert(views(out@) =~= spec_discovery_lines(*r, released@));
    }
    out
}

} // verus!
