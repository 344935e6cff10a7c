//! Whether a branch's work reached the base, decided from history.
//!
//! Four tiers, most certain first, and the answer names the one that decided it:
//! a recorded landing the base carries; the change request's number in the base's
//! history; a landing trailer naming a commit of the branch; and last a comparison
//! of content, which never answers `yes` and answers `no` only from a base history
//! that reaches the base this host knows. A tier that finds a landing that does not
//! account for everything the branch carries answers `in-part` rather than passing
//! the question down to a comparison that knows less.

use vstd::prelude::*;

use crate::git::{self, CommitMessage, ObjectId};
use crate::host::Sha;
use crate::text::{self, views};

verus! {

/// Which tier decided a landing, and the commit that is its evidence.
#[derive(Debug, Clone, PartialEq, Eq)]
pub enum LandingEvidence {
    /// A landing commit recorded for this branch, which the base carries.
    RecordedLanding {
        /// The commit the record names.
        commit: Sha,
    },
    /// The change request's own number, in a commit the base carries.
    ChangeRequest {
        /// The commit on the base that names it.
        commit: Sha,
        /// The change request that commit names.
        change_url: String,
    },
    /// A landing trailer naming a commit of this branch, in a commit the base carries.
    Trailer {
        /// The commit on the base that carries the trailer.
        commit: Sha,
    },
}

/// The tier a piece of evidence is, in the words a rendering names it by.
pub open spec fn spec_evidence_tier(e: LandingEvidence) -> Seq<char> {
    match e {
        LandingEvidence::RecordedLanding { .. } => "a recorded landing"@,
        LandingEvidence::ChangeRequest { .. } => "the change request's number in the base"@,
        LandingEvidence::Trailer { .. } => "a landing trailer on the base"@,
    }
}

/// The commit that is a piece of evidence.
pub open spec fn spec_evidence_commit(e: LandingEvidence) -> Seq<char> {
    match e {
        LandingEvidence::RecordedLanding { commit } => commit.0@,
        LandingEvidence::ChangeRequest { commit, .. } => commit.0@,
        LandingEvidence::Trailer { commit } => commit.0@,
    }
}

impl LandingEvidence {
    /// The same evidence, as an owned value of its own.
    pub fn copied(&self) -> (e: LandingEvidence)
        ensures
            e == *self,
    {
        match self {
            LandingEvidence::RecordedLanding { commit } => LandingEvidence::RecordedLanding {
                commit: Sha(commit.0.clone()),
            },
            LandingEvidence::ChangeRequest { commit, change_url } => LandingEvidence::ChangeRequest {
                commit: Sha(commit.0.clone()),
                change_url: change_url.clone(),
            },
            LandingEvidence::Trailer { commit } => LandingEvidence::Trailer {
                commit: Sha(commit.0.clone()),
            },
        }
    }

    /// The tier this is, in the words a rendering names it by.
    pub fn tier(&self) -> (out: &'static str)
        ensures
            out@ == spec_evidence_tier(*self),
    {
        match self {
            LandingEvidence::RecordedLanding { .. } => "a recorded landing",
            LandingEvidence::ChangeRequest { .. } => "the change request's number in the base",
            LandingEvidence::Trailer { .. } => "a landing trailer on the base",
        }
    }

    /// The commit that is the evidence, as a rendering prints it.
    pub fn commit(&self) -> (out: &str)
        ensures
            out@ == spec_evidence_commit(*self),
    {
        match self {
            LandingEvidence::RecordedLanding { commit } => commit.0.as_str(),
            LandingEvidence::ChangeRequest { commit, .. } => commit.0.as_str(),
            LandingEvidence::Trailer { commit } => commit.0.as_str(),
        }
    }
}

/// Whether the work reached the base, and where it did, what says so. The evidence
/// travels inside the answer, so a `yes` with nothing behind it is unrepresentable.
#[derive(Debug, Clone, PartialEq, Eq)]
pub enum Landed {
    /// It reached the base, and this is the record that says so.
    Yes {
        /// Which tier decided it, and the commit that is the evidence.
        evidence: LandingEvidence,
    },
    /// A tier found the landing, and the branch has gone on since.
    InPart {
        /// Which tier found the landing, and its commit.
        evidence: LandingEvidence,
        /// How many commits the branch holds that the landing does not integrate.
        unlanded: usize,
    },
    /// Nothing records that it reached the base, and the base does not carry what
    /// it changed.
    No,
    /// Nothing records that it reached the base, and whether it did cannot be told.
    Unknown,
}

impl Default for Landed {
    /// A record written before there was anything to say about landing said
    /// nothing, and nothing is not "no".
    fn default() -> (l: Self)
        ensures
            l == Landed::Unknown,
    {
        Landed::Unknown
    }
}

impl Landed {
    /// Whether the work is *finished*: it reached the base and the branch holds
    /// nothing the landing did not carry. `in-part` answers `false`: there is work
    /// left to publish.
    pub fn is_landed(&self) -> (b: bool)
        ensures
            b == (*self is Yes),
    {
        matches!(self, Landed::Yes { .. })
    }

    /// The tier that decided it, in the words a rendering names it by.
    pub fn tier(&self) -> (out: &'static str)
        ensures
            out@ == (match *self {
                Landed::Yes { evidence } => spec_evidence_tier(evidence),
                Landed::InPart { evidence, .. } => spec_evidence_tier(evidence),
                _ => "content comparison"@,
            }),
    {
        match self {
            Landed::Yes { evidence } => evidence.tier(),
            Landed::InPart { evidence, .. } => evidence.tier(),
            Landed::No | Landed::Unknown => "content comparison",
        }
    }
}

/// A landing one of the first three tiers found: its commit, and, for each commit
/// the branch holds above its fork point walked newest first, whether the landing
/// already integrates it.
#[derive(Debug, Clone)]
pub struct Found {
    /// The landing commit on the base.
    pub commit: Sha,
    /// Whether the landing integrates each of the branch's commits, newest first.
    pub integrates: Vec<bool>,
}

/// What the first three tiers found, each in its own place: the recorded landing
/// the base reaches, the base commit naming the change request (with that request's
/// URL), and every landing trailer naming a commit of the branch, in the base's
/// history order.
#[derive(Debug, Clone)]
pub struct Tiers {
    /// Tier one: the recorded landing, where the base reaches it.
    pub recorded: Option<Found>,
    /// Tier two: the base commit that names the change request, and its URL.
    pub change: Option<(Found, String)>,
    /// Tier three: the base commits whose landing trailer names a commit of the branch.
    pub trailers: Vec<Found>,
}

/// What the history says when no tier found a landing: only `no` or `unknown`.
#[derive(Debug, Clone, Copy, PartialEq, Eq, Structural)]
pub struct Compared {
    /// Whether the branch and the base share any history at all.
    pub forked: bool,
    /// Whether the base carries what the branch changed: over the paths it touched
    /// since the fork, or, with no fork, over the whole tree.
    pub carried: bool,
    /// Whether the base's history already took a change under the subject a landing
    /// of the branch would carry.
    pub subject_taken: bool,
    /// Whether the history asked stops short of the base this host knows.
    pub behind: bool,
}

/// Whether a landing accounts for all of the branch: it integrates the branch's
/// newest commit (a branch with nothing above its fork is wholly accounted for).
pub open spec fn spec_whole(integrates: Seq<bool>) -> bool {
    integrates.len() == 0 || integrates[0]
}

/// The first trailer landing, from `from` on, that accounts for all of the branch.
pub open spec fn spec_first_whole(found: Seq<Found>, from: int) -> Option<int>
    decreases found.len() - from,
{
    if from < 0 || from >= found.len() {
        None
    } else if spec_whole(found[from].integrates@) {
        Some(from)
    } else {
        spec_first_whole(found, from + 1)
    }
}

/// The evidence each tier's landing is.
pub open spec fn spec_recorded(f: Found) -> LandingEvidence {
    LandingEvidence::RecordedLanding { commit: f.commit }
}

pub open spec fn spec_named(f: Found, url: String) -> LandingEvidence {
    LandingEvidence::ChangeRequest { commit: f.commit, change_url: url }
}

pub open spec fn spec_trailed(f: Found) -> LandingEvidence {
    LandingEvidence::Trailer { commit: f.commit }
}

/// The recorded landing, as evidence with its walk.
pub open spec fn spec_tier_one(t: Tiers) -> Option<(LandingEvidence, Seq<bool>)> {
    match t.recorded {
        Some(f) => Some((spec_recorded(f), f.integrates@)),
        None => None,
    }
}

/// The change request's landing, as evidence with its walk.
pub open spec fn spec_tier_two(t: Tiers) -> Option<(LandingEvidence, Seq<bool>)> {
    match t.change {
        Some((f, url)) => Some((spec_named(f, url), f.integrates@)),
        None => None,
    }
}

/// Whether a tier found a landing that accounts for all of the branch.
pub open spec fn spec_tier_whole(found: Option<(LandingEvidence, Seq<bool>)>) -> bool {
    match found {
        Some((_, integrates)) => spec_whole(integrates),
        None => false,
    }
}

/// The landing that answers `in-part` once no tier's landing accounts for all of
/// the branch: the most certain tier's, the first it found.
pub open spec fn spec_partial(t: Tiers) -> Option<(LandingEvidence, Seq<bool>)> {
    match t.recorded {
        Some(f) => Some((spec_recorded(f), f.integrates@)),
        None => match t.change {
            Some((f, url)) => Some((spec_named(f, url), f.integrates@)),
            None => if t.trailers@.len() > 0 {
                Some((spec_trailed(t.trailers@[0]), t.trailers@[0].integrates@))
            } else {
                None
            },
        },
    }
}

/// What the comparison at the bottom answers: `unknown` where the base carries the
/// change, where its history took one under the same subject, or where that history
/// stops short of the base this host knows; `no` otherwise.
pub open spec fn spec_compared(c: Compared) -> Landed {
    if c.carried || (c.forked && c.subject_taken) || c.behind {
        Landed::Unknown
    } else {
        Landed::No
    }
}

/// Which of the four answers a branch's history gives, tier by tier: a landing that
/// accounts for all of the branch answers `yes`, the recorded landing first, then
/// the change request's number, then the trailers in order; failing that, the most
/// certain landing found answers `in-part` with the commits above it; and with
/// nothing found, or no history shared with the base, the comparison answers.
pub open spec fn spec_decide(t: Tiers, compared: Compared) -> Landed {
    if !compared.forked {
        spec_compared(compared)
    } else if spec_tier_whole(spec_tier_one(t)) {
        Landed::Yes { evidence: spec_tier_one(t).unwrap().0 }
    } else if spec_tier_whole(spec_tier_two(t)) {
        Landed::Yes { evidence: spec_tier_two(t).unwrap().0 }
    } else {
        match spec_first_whole(t.trailers@, 0) {
            Some(i) => Landed::Yes { evidence: spec_trailed(t.trailers@[i]) },
            None => match spec_partial(t) {
                Some((evidence, integrates)) => Landed::InPart {
                    evidence,
                    unlanded: spec_unlanded_above(integrates) as usize,
                },
                None => spec_compared(compared),
            },
        }
    }
}

fn found_commit(f: &Found) -> (out: Sha)
    ensures
        out == f.commit,
{
    Sha(f.commit.0.clone())
}

fn is_whole(integrates: &[bool]) -> (b: bool)
    ensures
        b == spec_whole(integrates@),
{
    integrates.len() == 0 || integrates[0]
}

/// Decide whether a branch's work reached the base, from what each tier found.
/// An `in-part` always names at least one commit the landing left behind.
pub fn decide(tiers: &Tiers, compared: Compared) -> (l: Landed)
    ensures
        l == spec_decide(*tiers, compared),
        l matches Landed::InPart { unlanded, .. } ==> unlanded >= 1,
{
    if !compared.forked {
        return comparison(compared);
    }
    if let Some(f) = &tiers.recorded {
        if is_whole(&f.integrates) {
            return Landed::Yes { evidence: LandingEvidence::RecordedLanding { commit: found_commit(f) } };
        }
    }
    if let Some((f, url)) = &tiers.change {
        if is_whole(&f.integrates) {
            return Landed::Yes {
                evidence: LandingEvidence::ChangeRequest { commit: found_commit(f), change_url: url.clone() },
            };
        }
    }
    let mut i: usize = 0;
    while i < tiers.trailers.len()
        invariant
            compared.forked,
            !spec_tier_whole(spec_tier_one(*tiers)),
            !spec_tier_whole(spec_tier_two(*tiers)),
            i <= tiers.trailers@.len(),
            spec_first_whole(tiers.trailers@, 0) == spec_first_whole(tiers.trailers@, i as int),
        decreases tiers.trailers.len() - i,
    {
        if is_whole(&tiers.trailers[i].integrates) {
            return Landed::Yes { evidence: LandingEvidence::Trailer { commit: found_commit(&tiers.trailers[i]) } };
        }
        i = i + 1;
    }
    let partial = if let Some(f) = &tiers.recorded {
        Some((LandingEvidence::RecordedLanding { commit: found_commit(f) }, f))
    } else if let Some((f, url)) = &tiers.change {
        Some((LandingEvidence::ChangeRequest { commit: found_commit(f), change_url: url.clone() }, f))
    } else if tiers.trailers.len() > 0 {
        Some((LandingEvidence::Trailer { commit: found_commit(&tiers.trailers[0]) }, &tiers.trailers[0]))
    } else {
        None
    };
    match partial {
        Some((evidence, f)) => {
            let unlanded = unlanded_above(&f.integrates);
            proof {
                assert(!spec_whole(f.integrates@));
            }
            Landed::InPart { evidence, unlanded }
        },
        None => comparison(compared),
    }
}

fn comparison(c: Compared) -> (l: Landed)
    ensures
        l == spec_compared(c),
{
    if c.carried || (c.forked && c.subject_taken) || c.behind {
        Landed::Unknown
    } else {
        Landed::No
    }
}

/// With no recorded landing, no change-request number and no landing trailer
/// found — or no history shared with the base — a landing is only ever `no` or
/// `unknown`: the comparison of content never answers `yes`, nor `in-part`.
pub proof fn lemma_comparison_never_lands(t: Tiers, compared: Compared)
    requires
        (t.recorded is None && t.change is None && t.trailers@.len() == 0) || !compared.forked,
    ensures
        spec_decide(t, compared) is No || spec_decide(t, compared) is Unknown,
{
}

/// A `no` is never answered from a history that stops short of the base this host
/// knows, nor where the base carries what the branch changed.
pub proof fn lemma_no_only_from_a_current_base(t: Tiers, compared: Compared)
    requires
        spec_decide(t, compared) is No,
    ensures
        !compared.behind,
        !compared.carried,
{
}

/// A `yes` always names the commit one of the tiers found, whose landing accounts
/// for the whole branch.
pub proof fn lemma_yes_is_found(t: Tiers, compared: Compared)
    requires
        spec_decide(t, compared) is Yes,
    ensures
        ({
            let e = spec_decide(t, compared)->Yes_evidence;
            ||| (t.recorded matches Some(f) && spec_whole(f.integrates@) && e == spec_recorded(f))
            ||| (t.change matches Some((f, url)) && spec_whole(f.integrates@) && e == spec_named(f, url))
            ||| exists|i: int| 0 <= i < t.trailers@.len() && spec_whole(t.trailers@[i].integrates@) && e
                == spec_trailed(#[trigger] t.trailers@[i])
        }),
{
    lemma_first_whole(t.trailers@, 0);
    if let Some(i) = spec_first_whole(t.trailers@, 0) {
        assert(0 <= i < t.trailers@.len());
    }
}

proof fn lemma_first_whole(found: Seq<Found>, from: int)
    ensures
        spec_first_whole(found, from) matches Some(i) ==> 0 <= i < found.len() && spec_whole(
            found[i].integrates@,
        ),
    decreases found.len() - from,
{
    if 0 <= from < found.len() && !spec_whole(found[from].integrates@) {
        lemma_first_whole(found, from + 1);
    }
}

// ---------------------------------------------------------------------------
// Reading the base's history
// ---------------------------------------------------------------------------

/// The number a change request's URL ends in, if it ends in one.
pub open spec fn spec_change_number(url: Seq<char>) -> Option<Seq<char>> {
    let trimmed = text::spec_trim_end_by(url, text::either('/', '/'));
    let segments = text::spec_split(trimmed, '/');
    let last = segments.last();
    if last.len() > 0 && forall|i: int| 0 <= i < last.len() ==> text::spec_is_ascii_digit(#[trigger] last[i]) {
        Some(last)
    } else {
        None
    }
}

/// Every spelling of a change request a commit on the base may carry: its URL, and
/// where the URL ends in a number, `(#n)` as a squash subject writes it and
/// `Merge pull request #n ` as a merge commit does.
pub open spec fn spec_spellings(url: Seq<char>) -> Seq<Seq<char>> {
    match spec_change_number(url) {
        Some(n) => seq![url, "(#"@ + n + ")"@, "Merge pull request #"@ + n + " "@],
        None => seq![url],
    }
}

/// Whether a message carries any of the spellings.
pub open spec fn spec_names_any(message: Seq<char>, spellings: Seq<Seq<char>>) -> bool {
    exists|i: int| 0 <= i < spellings.len() && text::spec_contains(message, #[trigger] spellings[i])
}

/// The first commit of a history whose message names the change.
pub open spec fn spec_naming(history: Seq<(Seq<char>, Seq<char>)>, spellings: Seq<Seq<char>>, from: int) -> Option<
    Seq<char>,
>
    decreases history.len() - from,
{
    if from < 0 || from >= history.len() {
        None
    } else if spec_names_any(history[from].1, spellings) {
        Some(history[from].0)
    } else {
        spec_naming(history, spellings, from + 1)
    }
}

fn change_number(url: &str) -> (r: Option<String>)
    ensures
        text::opt_view(r) == spec_change_number(url@),
{
    let trimmed = text::trim_end_either(url, '/', '/');
    let segments = text::split(&trimmed, '/');
    proof {
        text::lemma_split_nonempty(trimmed@, '/');
    }
    let last = &segments[segments.len() - 1];
    let ghost spelled = text::spec_split(text::spec_trim_end_by(url@, text::either('/', '/')), '/').last();
    assert(last@ == spelled);
    let chars = text::chars_of(last);
    if chars.len() == 0 {
        return None;
    }
    let mut i: usize = 0;
    while i < chars.len()
        invariant
            last@ == spelled,
            spelled == text::spec_split(text::spec_trim_end_by(url@, text::either('/', '/')), '/').last(),
            i <= chars@.len(),
            chars@ == last@,
            forall|j: int| 0 <= j < i ==> text::spec_is_ascii_digit(#[trigger] chars@[j]),
        decreases chars.len() - i,
    {
        if !text::is_ascii_digit(chars[i]) {
            assert(!text::spec_is_ascii_digit(spelled[i as int]));
            return None;
        }
        i = i + 1;
    }
    Some(last.clone())
}

fn spellings(url: &str) -> (out: Vec<String>)
    ensures
        views(out@) == spec_spellings(url@),
{
    match change_number(url) {
        Some(n) => {
            let out = vec![
                text::owned(url),
                text::concat3("(#", &n, ")"),
                text::concat3("Merge pull request #", &n, " "),
            ];
            assert(views(out@) =~= spec_spellings(url@));
            out
        },
        None => {
            let out = vec![text::owned(url)];
            assert(views(out@) =~= spec_spellings(url@));
            out
        },
    }
}

/// The base commit that names a change request, when one does: three spellings,
/// matched with their own punctuation so that `#1` cannot answer for `#12`.
pub fn names_the_change(history: &[CommitMessage], url: &str) -> (r: Option<String>)
    ensures
        text::opt_view(r) == spec_naming(git::commit_views(history@), spec_spellings(url@), 0),
{
    let spelled = spellings(url);
    let ghost h = git::commit_views(history@);
    let mut k: usize = 0;
    while k < history.len()
        invariant
            k <= history@.len(),
            h == git::commit_views(history@),
            views(spelled@) == spec_spellings(url@),
            spec_naming(h, views(spelled@), 0) == spec_naming(h, views(spelled@), k as int),
        decreases history.len() - k,
    {
        let message = text::chars_of(&history[k].message);
        let mut found = false;
        let mut j: usize = 0;
        while j < spelled.len()
            invariant
                j <= spelled@.len(),
                message@ == history@[k as int].message@,
                found == exists|i: int| 0 <= i < j && text::spec_contains(
                    message@,
                    #[trigger] views(spelled@)[i],
                ),
            decreases spelled.len() - j,
        {
            let spelling = text::chars_of(&spelled[j]);
            let here = text::contains(&message, &spelling);
            proof {
                if here {
                    assert(text::spec_contains(message@, views(spelled@)[j as int]));
                }
                if !found && !here {
                    assert forall|i: int| 0 <= i < j + 1 implies !text::spec_contains(
                        message@,
                        #[trigger] views(spelled@)[i],
                    ) by {
                        if i == j {
                            assert(views(spelled@)[i] == spelling@);
                        }
                    }
                }
            }
            found = found || here;
            j = j + 1;
        }
        proof {
            assert(h[k as int].1 == history@[k as int].message@);
        }
        if found {
            return Some(history[k].sha.clone());
        }
        k = k + 1;
    }
    None
}

/// The values a message carries under one trailer key that are object ids: each
/// line, trimmed, that opens with the key, with what follows trimmed again.
pub open spec fn spec_trailer_values(lines: Seq<Seq<char>>, key: Seq<char>) -> Seq<Seq<char>>
    decreases lines.len(),
{
    if lines.len() == 0 {
        seq![]
    } else {
        let rest = spec_trailer_values(lines.drop_last(), key);
        match text::spec_strip_prefix(text::spec_trim(lines.last()), key) {
            Some(value) => if git::spec_is_object_id(text::spec_trim(value)) {
                rest.push(text::spec_trim(value))
            } else {
                rest
            },
            None => rest,
        }
    }
}

/// Every object id a message carries under one trailer key; a value that is not one
/// names no landing rather than becoming a revision handed to git.
pub fn trailer_values(message: &str, key: &str) -> (out: Vec<ObjectId>)
    ensures
        out@.map_values(|id: ObjectId| id@) == spec_trailer_values(text::spec_lines(message@), key@),
{
    let lines = text::lines(message);
    let mut out: Vec<ObjectId> = Vec::new();
    let mut k: usize = 0;
    while k < lines.len()
        invariant
            k <= lines@.len(),
            out@.map_values(|id: ObjectId| id@) == spec_trailer_values(views(lines@.take(k as int)), key@),
        decreases lines.len() - k,
    {
        proof {
            assert(views(lines@.take(k + 1)).drop_last() =~= views(lines@.take(k as int)));
            assert(views(lines@.take(k + 1)).last() == lines@[k as int]@);
        }
        let line = text::trim(&lines[k]);
        match text::strip_prefix(&line, key) {
            Some(value) => {
                let value = text::trim(&value);
                match ObjectId::parse(&value) {
                    Some(id) => {
                        let ghost before = out@;
                        out.push(id);
                        proof {
                            assert(out@.map_values(|id: ObjectId| id@) =~= before.map_values(
                                |id: ObjectId| id@,
                            ).push(value@));
                        }
                    },
                    None => {},
                }
            },
            None => {},
        }
        k = k + 1;
    }
    proof {
        assert(lines@.take(lines@.len() as int) =~= lines@);
    }
    out
}

/// Whether the base's history already took a change under `subject`: some commit's
/// first line, trimmed, is exactly it.
pub open spec fn spec_subject_taken(history: Seq<(Seq<char>, Seq<char>)>, subject: Seq<char>) -> bool {
    exists|i: int|
        0 <= i < history.len() && text::spec_lines(#[trigger] history[i].1).len() > 0
            && text::spec_trim(text::spec_lines(history[i].1)[0]) == subject
}

/// Whether the base's history already took a change under the subject a landing of
/// this branch would carry; evidence that the answer cannot be known, never of a
/// landing.
pub fn already_took_this_change(history: &[CommitMessage], subject: &str) -> (b: bool)
    ensures
        b == spec_subject_taken(git::commit_views(history@), subject@),
{
    let ghost h = git::commit_views(history@);
    let mut k: usize = 0;
    while k < history.len()
        invariant
            k <= history@.len(),
            h == git::commit_views(history@),
            forall|i: int|
                0 <= i < k ==> !(text::spec_lines(#[trigger] h[i].1).len() > 0 && text::spec_trim(
                    text::spec_lines(h[i].1)[0],
                ) == subject@),
        decreases history.len() - k,
    {
        let lines = text::lines(&history[k].message);
        proof {
            assert(h[k as int].1 == history@[k as int].message@);
        }
        if lines.len() > 0 {
            let first = text::trim(&lines[0]);
            if text::str_eq(&first, subject) {
                return true;
            }
        }
        k = k + 1;
    }
    false
}

/// How many commits sit above a landing, newest first: those before the first one
/// the landing already integrates (`integrates[i]` for the `i`-th newest commit).
pub open spec fn spec_unlanded_above(integrates: Seq<bool>) -> nat
    decreases integrates.len(),
{
    if integrates.len() == 0 || integrates[0] {
        0
    } else {
        1 + spec_unlanded_above(integrates.drop_first())
    }
}

/// How many of the branch's commits, walked newest first, the landing does not
/// integrate before it reaches one it does — the suffix of the branch a squash did
/// not account for.
pub fn unlanded_above(integrates: &[bool]) -> (n: usize)
    ensures
        n == spec_unlanded_above(integrates@),
        n <= integrates@.len(),
        forall|i: int| 0 <= i < n ==> !#[trigger] integrates@[i],
        n < integrates@.len() ==> integrates@[n as int],
{
    let mut n: usize = 0;
    proof {
        assert(integrates@.skip(0) =~= integrates@);
    }
    while n < integrates.len()
        invariant
            n <= integrates@.len(),
            forall|i: int| 0 <= i < n ==> !#[trigger] integrates@[i],
            spec_unlanded_above(integrates@) == n + spec_unlanded_above(integrates@.skip(n as int)),
        decreases integrates.len() - n,
    {
        if integrates[n] {
            proof {
                assert(integrates@.skip(n as int)[0] == integrates@[n as int]);
            }
            return n;
        }
        proof {
            assert(integrates@.skip(n as int).drop_first() =~= integrates@.skip(n + 1));
        }
        n = n + 1;
    }
    proof {
        assert(integrates@.skip(n as int).len() == 0);
    }
    n
}

/// Whether a message names change request `url` (numbered `n`) in any of the three
/// ways something writes one: the URL itself, the host's squash subject `(#N)`, or
/// its merge commit's `Merge pull request #N `.
pub open spec fn spec_spelled_out(message: Seq<char>, url: Seq<char>, n: Seq<char>) -> bool {
    ||| text::spec_contains(message, url)
    ||| text::spec_contains(message, "(#"@ + n + ")"@)
    ||| text::spec_contains(message, "Merge pull request #"@ + n + " "@)
}

/// With a numbered URL, a message names the change exactly when it spells it out in
/// one of the three ways.
proof fn lemma_named_when_spelled_out(message: Seq<char>, url: Seq<char>, n: Seq<char>)
    requires
        spec_change_number(url) == Some(n),
    ensures
        spec_names_any(message, spec_spellings(url)) == spec_spelled_out(message, url, n),
{
    let sp = spec_spellings(url);
    assert(sp == seq![url, "(#"@ + n + ")"@, "Merge pull request #"@ + n + " "@]);
    if spec_spelled_out(message, url, n) {
        if text::spec_contains(message, url) {
            assert(text::spec_contains(message, sp[0]));
        } else if text::spec_contains(message, "(#"@ + n + ")"@) {
            assert(text::spec_contains(message, sp[1]));
        } else {
            assert(text::spec_contains(message, sp[2]));
        }
    }
}

/// A change request is found in a history by its URL, by the `(#N)` a squash merge
/// puts in its subject, and by the `Merge pull request #N ` a merge commit writes:
/// the commit answered is the first, from `from` on, whose message carries any of
/// the three.
pub proof fn lemma_the_change_is_found_by_each_spelling(
    history: Seq<(Seq<char>, Seq<char>)>,
    url: Seq<char>,
    n: Seq<char>,
    k: int,
    from: int,
)
    requires
        spec_change_number(url) == Some(n),
        0 <= from <= k < history.len(),
        spec_spelled_out(history[k].1, url, n),
        forall|j: int| from <= j < k ==> !spec_spelled_out(#[trigger] history[j].1, url, n),
    ensures
        spec_naming(history, spec_spellings(url), from) == Some(history[k].0),
    decreases k - from,
{
    lemma_named_when_spelled_out(history[from].1, url, n);
    if from < k {
        lemma_the_change_is_found_by_each_spelling(history, url, n, k, from + 1);
    }
}

/// A history where no commit from `from` on spells the change out in any of the
/// three ways does not name it.
pub proof fn lemma_an_unspelled_change_is_not_found(
    history: Seq<(Seq<char>, Seq<char>)>,
    url: Seq<char>,
    n: Seq<char>,
    from: int,
)
    requires
        spec_change_number(url) == Some(n),
        0 <= from <= history.len(),
        forall|j: int| from <= j < history.len() ==> !spec_spelled_out(#[trigger] history[j].1, url, n),
    ensures
        spec_naming(history, spec_spellings(url), from) is None,
    decreases history.len() - from,
{
    if from < history.len() {
        lemma_named_when_spelled_out(history[from].1, url, n);
        lemma_an_unspelled_change_is_not_found(history, url, n, from + 1);
    }
}

/// The last piece `split` gives of text ending in `sep` and then a run without one
/// is that run.
proof fn lemma_split_last(p: Seq<char>, sep: char, t: Seq<char>)
    requires
        !text::spec_has_char(t, sep),
    ensures
        text::spec_split(p + seq![sep] + t, sep).last() == t,
    decreases p.len(),
{
    let s = p + seq![sep] + t;
    text::lemma_index_of(s, sep);
    text::lemma_index_of(p, sep);
    let i = text::spec_index_of(s, sep);
    if text::spec_index_of(p, sep) < 0 {
        text::lemma_index_of_is(s, sep, p.len() as int);
        assert(s.skip(p.len() as int + 1) =~= t);
        text::lemma_split_without(t, sep);
    } else {
        let j = text::spec_index_of(p, sep);
        assert(s[j] == sep);
        text::lemma_index_of_is(s, sep, j);
        assert(s.skip(j + 1) =~= p.skip(j + 1) + seq![sep] + t);
        lemma_split_last(p.skip(j + 1), sep, t);
        text::lemma_split_nonempty(s.skip(j + 1), sep);
    }
}

/// A change request's URL whose last segment is a number is numbered by it: for
/// every URL `…/N` with `N` decimal digits, the number the history is searched for
/// is `N`.
pub proof fn lemma_a_url_is_numbered_by_its_last_segment(prefix: Seq<char>, n: Seq<char>)
    requires
        n.len() > 0,
        forall|i: int| 0 <= i < n.len() ==> text::spec_is_ascii_digit(#[trigger] n[i]),
    ensures
        spec_change_number(prefix + "/"@ + n) == Some(n),
{
    reveal_strlit("/");
    let url = prefix + "/"@ + n;
    assert(url =~= prefix + seq!['/'] + n);
    assert(url[url.len() - 1] == n[n.len() - 1]);
    assert(text::spec_is_ascii_digit(n[n.len() - 1]));
    text::lemma_trailing_is(url, text::either('/', '/'), 0);
    assert(text::spec_trim_end_by(url, text::either('/', '/')) =~= url);
    assert(!text::spec_has_char(n, '/')) by {
        if text::spec_has_char(n, '/') {
            let i = choose|i: int| 0 <= i < n.len() && n[i] == '/';
            assert(text::spec_is_ascii_digit(n[i]));
        }
    }
    lemma_split_last(prefix, '/', n);
}

} // verus!
