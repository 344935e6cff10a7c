//! The rules engine: which policy a repository publishes under, and why.
//!
//! The rules file is YAML and **first match wins**. A rule contributes whichever of
//! the two policy fields it sets; anything it leaves unset comes from the file's
//! `default`. A registry with no rules file resolves against a built-in default.
//!
//! A per-run explicit policy may **narrow** — ask for more review than the rules
//! chose — and never widen: widening is how work reaches a base branch without the
//! review its repository requires, and no later step notices.

use vstd::prelude::*;

use crate::error::{Error, Result};
use crate::home;
use crate::ids;
use crate::rules::{Approvals, MergePolicy, Policy, Rule, RuleMatch, RulesFile};
use crate::store::{Hosted, Normalized};
use crate::text::{self, views};

verus! {

/// The version of the rules file this build writes, and the newest it reads.
pub const VERSION: u32 = 3;

/// The oldest version this build still reads.
pub const OLDEST_VERSION: u32 = 1;

/// The version at which the rules file gained a configurable trailer prefix.
pub const TRAILER_PREFIX_VERSION: u32 = 2;

/// The version at which the rules file stopped naming what verifies a change.
pub const GATE_REMOVED_VERSION: u32 = 3;

/// How much review a publication policy leaves in the path: a higher rank is more
/// review, and an explicit policy may only move up.
pub open spec fn spec_review_rank(policy: MergePolicy) -> nat {
    match policy {
        MergePolicy::LocalDirect => 0,
        MergePolicy::ChangeDirect => 1,
        MergePolicy::ChangeAuto => 2,
        MergePolicy::ChangeOpen => 3,
    }
}

/// How much review a publication policy leaves in the path.
pub fn review_rank(policy: MergePolicy) -> (rank: u8)
    ensures
        rank == spec_review_rank(policy),
{
    match policy {
        MergePolicy::LocalDirect => 0,
        MergePolicy::ChangeDirect => 1,
        MergePolicy::ChangeAuto => 2,
        MergePolicy::ChangeOpen => 3,
    }
}

/// How a policy is spelled in the rules file and on `--policy`.
pub open spec fn spec_spell(policy: MergePolicy) -> Seq<char> {
    match policy {
        MergePolicy::LocalDirect => "local-direct"@,
        MergePolicy::ChangeOpen => "change-open"@,
        MergePolicy::ChangeAuto => "change-auto"@,
        MergePolicy::ChangeDirect => "change-direct"@,
    }
}

/// How a policy is spelled in the rules file and on `--policy`.
pub fn spell(policy: MergePolicy) -> (out: &'static str)
    ensures
        out@ == spec_spell(policy),
{
    match policy {
        MergePolicy::LocalDirect => "local-direct",
        MergePolicy::ChangeOpen => "change-open",
        MergePolicy::ChangeAuto => "change-auto",
        MergePolicy::ChangeDirect => "change-direct",
    }
}

/// The rule a repository matched: which one, and what it says.
#[derive(Debug, Clone)]
pub struct Matched {
    /// Its one-based position in the file, which is the order that decided it.
    pub index: usize,
    /// What it matches on, for the explanation.
    pub criteria: RuleMatch,
}

/// The policy a repository resolves to, and the reasoning that produced it.
#[derive(Debug, Clone)]
pub struct Resolved {
    /// The decided policy.
    pub policy: Policy,
    /// Where the rules came from: a file, or the built-in default.
    pub source: String,
    /// The rule that matched, if any did.
    pub matched: Option<Matched>,
    /// Where `publication` came from: the matched rule, or the default.
    pub publication_from: String,
    /// Where `approvals` came from.
    pub approvals_from: String,
}

/// Where the rules a repository resolved against came from: a path that was read,
/// or no file at all — two states, so a refusal can say which file to edit.
#[derive(Debug, Clone, PartialEq, Eq)]
pub enum RulesSource {
    /// The rules file at this path, which is what was read.
    File(String),
    /// No file: the built-in default.
    BuiltIn,
}

/// What a built-in source is reported as.
pub const BUILT_IN: &'static str = "the built-in default policy";

/// Where a host configures its rules without editing the registry document: the
/// file `rules.yml` under the state root.
pub fn default_path(root: &str) -> (out: String)
    ensures
        out@ == home::spec_path_join(root@, "rules.yml"@),
{
    home::path_join(root, "rules.yml")
}

impl RulesSource {
    /// The file an operator would edit to change this policy — the one that was
    /// read, or the conventional path under the state root `root` where one would go.
    pub fn file(&self, root: &str) -> (out: String)
        ensures
            out@ == (match *self {
                RulesSource::File(path) => path@,
                RulesSource::BuiltIn => home::spec_path_join(root@, "rules.yml"@),
            }),
    {
        match self {
            RulesSource::File(path) => path.clone(),
            RulesSource::BuiltIn => default_path(root),
        }
    }

    /// How a report names the source: the path, or the built-in default.
    pub fn describe(&self) -> (out: String)
        ensures
            out@ == spec_describe(*self),
    {
        match self {
            RulesSource::File(path) => path.clone(),
            RulesSource::BuiltIn => text::owned(BUILT_IN),
        }
    }
}

/// How a report names a rules source.
pub open spec fn spec_describe(source: RulesSource) -> Seq<char> {
    match source {
        RulesSource::File(path) => path@,
        RulesSource::BuiltIn => BUILT_IN@,
    }
}

/// The policy the contract's `default:` names, for a registry with no rules file:
/// a change request left open, with an approval required.
pub fn built_in_default() -> (p: Policy)
    ensures
        p == (Policy { publication: MergePolicy::ChangeOpen, approvals: Approvals::Required }),
{
    Policy { publication: MergePolicy::ChangeOpen, approvals: Approvals::Required }
}

/// The rules a registry without a rules file resolves against: no rules, the
/// built-in default, at the current version.
pub fn built_in_rules() -> (file: RulesFile)
    ensures
        file.version == VERSION,
        file.trailer_prefix is None,
        file.rules@.len() == 0,
        file.default == built_in_default_spec(),
{
    RulesFile {
        version: VERSION,
        trailer_prefix: None,
        rules: Vec::new(),
        default: built_in_default(),
    }
}

/// The built-in default, as a value.
pub open spec fn built_in_default_spec() -> Policy {
    Policy { publication: MergePolicy::ChangeOpen, approvals: Approvals::Required }
}

/// What a rules file declaring a version this build does not read is refused as.
pub open spec fn spec_unreadable_version(path: Seq<char>, declared: nat) -> Seq<char> {
    "the rules file at "@ + path + " declares version "@ + text::spec_decimal(declared)
        + "; this build reads versions 1 to 3"@
}

/// Settle the version a rules document declares, before its shape is enforced: a
/// version outside what this build reads is refused, and the answer says whether
/// the document predates the removal of `gate:`, whose spent keys are then dropped
/// rather than refused.
pub fn check_declared_version(path: &str, declared: Option<u64>) -> (r: Result<bool>)
    ensures
        match declared {
            None => r == Ok::<bool, Error>(false),
            Some(v) => if OLDEST_VERSION <= v <= VERSION {
                r == Ok::<bool, Error>(v < GATE_REMOVED_VERSION)
            } else {
                r is Err && crate::git::spec_refused(
                    r->Err_0,
                    spec_unreadable_version(path@, v as nat),
                )
            },
        },
{
    match declared {
        None => Ok(false),
        Some(v) => {
            if OLDEST_VERSION as u64 <= v && v <= VERSION as u64 {
                Ok(v < GATE_REMOVED_VERSION as u64)
            } else {
                let mut reason = text::concat3("the rules file at ", path, " declares version ");
                let n = text::decimal(v);
                reason.append(&n);
                reason.append("; this build reads versions 1 to 3");
                Err(Error::Invalid { reason })
            }
        },
    }
}

/// The warning a load prints once when a pre-`3` rules file still names a gate, or
/// nothing where it named none.
pub fn spent_gate_warning(path: &str, dropped: usize) -> (r: Option<String>)
    ensures
        dropped == 0 <==> r is None,
        r is Some ==> r.unwrap()@ == "onevcs: warning: the rules file at "@ + path@
            + SPENT_GATE@,
{
    if dropped == 0 {
        return None;
    }
    let mut warning = text::concat("onevcs: warning: the rules file at ", path);
    warning.append(SPENT_GATE);
    Some(warning)
}

/// The rest of the spent-gate warning, after the path.
pub const SPENT_GATE: &'static str = " names a gate, which version 3 removed; it is ignored. What verifies a change is the repository's own merge path — the host's required checks, or its pre-push hook — and `onevcs repos --audit-gates` reports which of those each identity has. Delete those gate keys and declare version 3";

// ---------------------------------------------------------------------------
// Admitting a rules document
// ---------------------------------------------------------------------------

/// What the YAML parser reads a rules document's text as, before its shape is
/// enforced: the `version` it declares as an unsigned integer, the keys of its
/// `default` mapping (`None` where that is no mapping), and, where `rules` is a
/// sequence, the keys of each entry (`None` for an entry that is no mapping; a key
/// that is not a string reads as `None`) — or the parser's own complaint.
pub uninterp spec fn spec_yaml_shape(raw: Seq<char>) -> core::result::Result<
    (Option<u64>, Option<Seq<Option<Seq<char>>>>, Option<Seq<Option<Seq<Option<Seq<char>>>>>>),
    Seq<char>,
>;

/// The keys of one mapping, as contracts speak of them.
pub open spec fn keys_view(keys: Option<Vec<Option<String>>>) -> Option<Seq<Option<Seq<char>>>> {
    match keys {
        Some(k) => Some(k@.map_values(|x: Option<String>| text::opt_view(x))),
        None => None,
    }
}

/// A rules document's shape, as contracts speak of it.
pub open spec fn yaml_shape_view(
    r: core::result::Result<
        (Option<u64>, Option<Vec<Option<String>>>, Option<Vec<Option<Vec<Option<String>>>>>),
        String,
    >,
) -> core::result::Result<
    (Option<u64>, Option<Seq<Option<Seq<char>>>>, Option<Seq<Option<Seq<Option<Seq<char>>>>>>),
    Seq<char>,
> {
    match r {
        Ok((declared, default, rules)) => Ok(
            (
                declared,
                keys_view(default),
                match rules {
                    Some(entries) => Some(entries@.map_values(|e: Option<Vec<Option<String>>>| keys_view(e))),
                    None => None,
                },
            ),
        ),
        Err(failure) => Err(failure@),
    }
}

/// Read a rules document's text with `serde_yaml_ng::from_str` into a
/// `serde_yaml_ng::Value`, keeping what settles whether it is admitted: its
/// `version` as an unsigned integer, and the keys of its `default` mapping and of
/// each entry of its `rules` sequence. A document the parser refuses answers the
/// parser's message.
#[verifier::external_body]
fn yaml_shape(raw: &str) -> (r: core::result::Result<
    (Option<u64>, Option<Vec<Option<String>>>, Option<Vec<Option<Vec<Option<String>>>>>),
    String,
>)
    ensures
        yaml_shape_view(r) == spec_yaml_shape(raw@),
{
    let keys = |v: &serde_yaml_ng::Value| v.as_mapping().map(|m| m.keys().map(|k| k.as_str().map(str::to_owned)).collect::<Vec<_>>());
    let doc: serde_yaml_ng::Value = serde_yaml_ng::from_str(raw).map_err(|e| e.to_string())?;
    let rules = doc.get("rules").and_then(serde_yaml_ng::Value::as_sequence).map(|s| s.iter().map(keys).collect());
    Ok((doc.get("version").and_then(serde_yaml_ng::Value::as_u64), doc.get("default").and_then(keys), rules))
}

/// Whether a mapping carries a `gate` key.
pub open spec fn spec_has_gate(keys: Option<Seq<Option<Seq<char>>>>) -> bool {
    match keys {
        Some(k) => k.contains(Some("gate"@)),
        None => false,
    }
}

/// How many `gate:` keys a document carries where the schema once put them: on
/// `default`, and on each rule.
pub open spec fn spec_gate_count(
    default: Option<Seq<Option<Seq<char>>>>,
    rules: Option<Seq<Option<Seq<Option<Seq<char>>>>>>,
) -> nat {
    (if spec_has_gate(default) { 1nat } else { 0nat }) + match rules {
        Some(entries) => entries.filter(|e: Option<Seq<Option<Seq<char>>>>| spec_has_gate(e)).len(),
        None => 0nat,
    }
}

fn has_gate(keys: &Option<Vec<Option<String>>>) -> (b: bool)
    ensures
        b == spec_has_gate(keys_view(*keys)),
{
    match keys {
        Some(k) => {
            let ghost v = k@.map_values(|x: Option<String>| text::opt_view(x));
            let mut i: usize = 0;
            while i < k.len()
                invariant
                    i <= k@.len(),
                    keys_view(*keys) == Some(v),
                    v == k@.map_values(|x: Option<String>| text::opt_view(x)),
                    forall|j: int| 0 <= j < i ==> v[j] != Some("gate"@),
                decreases k.len() - i,
            {
                match &k[i] {
                    Some(key) => {
                        if text::str_eq(key, "gate") {
                            assert(v[i as int] == Some("gate"@));
                            assert(v.contains(Some("gate"@)));
                            return true;
                        }
                    },
                    None => {},
                }
                i = i + 1;
            }
            proof {
                if v.contains(Some("gate"@)) {
                    let w = choose|w: int| 0 <= w < v.len() && v[w] == Some("gate"@);
                    assert(v[w] != Some("gate"@));
                }
            }
            false
        },
        None => false,
    }
}

/// Whether a rules document's text is admitted before its shape is read: it must
/// be YAML and declare a version this build reads. The answer is whether a document
/// predating the removal of `gate:` still carries spent `gate:` keys — the caller
/// drops them and says so once — and `false` for any other document, whose `gate:`
/// is refused with every other stray key when its shape is read.
pub fn admit_rules(raw: &str, path: &str) -> (r: Result<bool>)
    ensures
        match spec_yaml_shape(raw@) {
            Err(failure) => r is Err && crate::git::spec_refused(
                r->Err_0,
                "the rules file at "@ + path@ + " is malformed: "@ + failure,
            ),
            Ok((declared, default, rules)) => match declared {
                Some(v) => if OLDEST_VERSION <= v <= VERSION {
                    r is Ok && r->Ok_0 == (v < GATE_REMOVED_VERSION && spec_gate_count(default, rules) > 0)
                } else {
                    r is Err && crate::git::spec_refused(r->Err_0, spec_unreadable_version(path@, v as nat))
                },
                None => r == Ok::<bool, Error>(false),
            },
        },
{
    let (declared, default, rules) = match yaml_shape(raw) {
        Ok(shape) => shape,
        Err(failure) => {
            let mut reason = text::concat3("the rules file at ", path, " is malformed: ");
            reason.append(&failure);
            return Err(Error::Invalid { reason });
        },
    };
    if !check_declared_version(path, declared)? {
        return Ok(false);
    }
    let on_default = has_gate(&default);
    let mut dropped: usize = 0;
    match &rules {
        Some(entries) => {
            let ghost e = entries@.map_values(|x: Option<Vec<Option<String>>>| keys_view(x));
            let ghost keep = |x: Option<Seq<Option<Seq<char>>>>| spec_has_gate(x);
            let mut i: usize = 0;
            proof {
                assert(e.take(0) =~= Seq::<Option<Seq<Option<Seq<char>>>>>::empty());
            }
            while i < entries.len()
                invariant
                    i <= entries@.len(),
                    e == entries@.map_values(|x: Option<Vec<Option<String>>>| keys_view(x)),
                    keep == (|x: Option<Seq<Option<Seq<char>>>>| spec_has_gate(x)),
                    dropped == e.take(i as int).filter(keep).len(),
                    e.take(i as int).filter(keep).len() <= i,
                decreases entries.len() - i,
            {
                proof {
                    assert(e.take(i + 1) =~= e.take(i as int).push(e[i as int]));
                    e.take(i as int).lemma_filter_push(e[i as int], keep);
                }
                if has_gate(&entries[i]) {
                    dropped = dropped + 1;
                }
                i = i + 1;
            }
            proof {
                assert(e.take(e.len() as int) =~= e);
            }
        },
        None => {},
    }
    Ok(on_default || dropped > 0)
}

// ---------------------------------------------------------------------------
// Validating a file's own policy
// ---------------------------------------------------------------------------

/// The policy one place in a file decides: the default at `0`, and rule `k` (one
/// based) with whatever it leaves unset taken from the default.
pub open spec fn spec_effective(file: RulesFile, k: int) -> Policy {
    if k == 0 {
        file.default
    } else {
        let rule = file.rules@[k - 1];
        Policy {
            publication: match rule.publication {
                Some(p) => p,
                None => file.default.publication,
            },
            approvals: match rule.approvals {
                Some(a) => a,
                None => file.default.approvals,
            },
        }
    }
}

/// A policy that requires an approval and merges without the host ever evaluating
/// one: a contradiction whose failure is silent.
pub open spec fn spec_contradictory(policy: Policy) -> bool {
    policy.approvals == Approvals::Required && spec_review_rank(policy.publication)
        < spec_review_rank(MergePolicy::ChangeAuto)
}

/// The first place, from `from` on, whose policy is contradictory.
pub open spec fn spec_first_contradiction(file: RulesFile, from: int) -> Option<int>
    decreases file.rules@.len() + 1 - from,
{
    if from < 0 || from > file.rules@.len() {
        None
    } else if spec_contradictory(spec_effective(file, from)) {
        Some(from)
    } else {
        spec_first_contradiction(file, from + 1)
    }
}

/// How a refusal names a place in the file.
pub open spec fn spec_place(k: int) -> Seq<char> {
    if k == 0 {
        "default"@
    } else {
        "rule "@ + text::spec_decimal(k as nat)
    }
}

/// What a trailer prefix in a file too old to carry one is refused as.
pub open spec fn spec_early_prefix(path: Seq<char>, version: nat) -> Seq<char> {
    "the rules file at "@ + path + " declares version "@ + text::spec_decimal(version)
        + EARLY_PREFIX@
}

/// The rest of the early-prefix refusal, after the version.
pub const EARLY_PREFIX: &'static str = " and names a trailer_prefix, which version 2 added; declare version 2 to configure one. A file whose key is not in the version it declares reads one way here and another wherever that version is trusted, and for this key those two readings are provenance written under one prefix and searched for under another";

/// What a contradictory policy is refused as.
pub open spec fn spec_contradiction(path: Seq<char>, k: int, publication: MergePolicy) -> Seq<char> {
    "the rules file at "@ + path + " has "@ + spec_place(k) + " combining publication: "@
        + spec_spell(publication)
        + " with approvals: required, which merges without the host ever evaluating an approval"@
}

/// Whether a rules file is one this build honours: a trailer prefix only from the
/// version that added it, and no place whose policy asks for an approval while
/// merging without one.
pub open spec fn spec_validated(path: Seq<char>, file: RulesFile, r: Result<()>) -> bool {
    if file.version < TRAILER_PREFIX_VERSION && file.trailer_prefix is Some {
        r is Err && crate::git::spec_refused(
            r->Err_0,
            spec_early_prefix(path, file.version as nat),
        )
    } else {
        match spec_first_contradiction(file, 0) {
            Some(k) => r is Err && crate::git::spec_refused(
                r->Err_0,
                spec_contradiction(path, k, spec_effective(file, k).publication),
            ),
            None => r is Ok,
        }
    }
}

fn place(k: usize) -> (out: String)
    ensures
        out@ == spec_place(k as int),
{
    if k == 0 {
        text::owned("default")
    } else {
        let n = text::decimal(k as u64);
        text::concat("rule ", &n)
    }
}

fn effective(file: &RulesFile, k: usize) -> (p: Policy)
    requires
        k <= file.rules@.len(),
    ensures
        p == spec_effective(*file, k as int),
{
    if k == 0 {
        return file.default;
    }
    let rule = &file.rules[k - 1];
    Policy {
        publication: match rule.publication {
            Some(p) => p,
            None => file.default.publication,
        },
        approvals: match rule.approvals {
            Some(a) => a,
            None => file.default.approvals,
        },
    }
}

/// Reject a rules file whose own policy cannot be honoured.
pub fn validate(path: &str, file: &RulesFile) -> (r: Result<()>)
    ensures
        spec_validated(path@, *file, r),
{
    if file.version < TRAILER_PREFIX_VERSION && file.trailer_prefix.is_some() {
        let mut reason = text::concat3("the rules file at ", path, " declares version ");
        let n = text::decimal(file.version as u64);
        reason.append(&n);
        reason.append(EARLY_PREFIX);
        return Err(Error::Invalid { reason });
    }
    if let Some(refused) = contradiction_at(path, file, 0) {
        return Err(refused);
    }
    let mut i: usize = 0;
    while i < file.rules.len()
        invariant
            i <= file.rules@.len(),
            !(file.version < TRAILER_PREFIX_VERSION && file.trailer_prefix is Some),
            spec_first_contradiction(*file, 0) == spec_first_contradiction(*file, i + 1),
        decreases file.rules@.len() - i,
    {
        if let Some(refused) = contradiction_at(path, file, i + 1) {
            return Err(refused);
        }
        i = i + 1;
    }
    Ok(())
}

/// The refusal for place `k` of a file, where its policy is contradictory.
fn contradiction_at(path: &str, file: &RulesFile, k: usize) -> (r: Option<Error>)
    requires
        k <= file.rules@.len(),
    ensures
        spec_contradictory(spec_effective(*file, k as int)) <==> r is Some,
        r is Some ==> crate::git::spec_refused(
            r.unwrap(),
            spec_contradiction(path@, k as int, spec_effective(*file, k as int).publication),
        ),
{
    let policy = effective(file, k);
    let rank = review_rank(policy.publication);
    if policy.approvals == Approvals::Required && rank < 2 {
        let mut reason = text::concat3("the rules file at ", path, " has ");
        let named = place(k);
        reason.append(&named);
        reason.append(" combining publication: ");
        reason.append(spell(policy.publication));
        reason.append(" with approvals: required, which merges without the host ever evaluating an approval",
        );
        return Some(Error::Invalid { reason });
    }
    None
}

// ---------------------------------------------------------------------------
// Matching a repository
// ---------------------------------------------------------------------------

/// What is left of `rest` once each of `parts` has been found in turn, leftmost,
/// and passed over; `None` where one of them is not there.
pub open spec fn spec_glob_middle(rest: Seq<char>, parts: Seq<Seq<char>>) -> Option<Seq<char>>
    decreases parts.len(),
{
    if parts.len() == 0 {
        Some(rest)
    } else {
        match text::spec_split_once_at(rest, parts[0]) {
            Some((_before, after)) => spec_glob_middle(after, parts.drop_first()),
            None => None,
        }
    }
}

/// Whether `value` matches `pattern`, where `*` matches any run of characters,
/// including none, and everything else is literal: the text before the first `*`
/// opens the value, the text after the last closes what is left, and each piece
/// between is found in order, leftmost.
pub open spec fn spec_glob(pattern: Seq<char>, value: Seq<char>) -> bool {
    let segments = text::spec_split(pattern, '*');
    match text::spec_strip_prefix(value, segments[0]) {
        None => false,
        Some(rest) => if segments.len() == 1 {
            rest.len() == 0
        } else {
            match spec_glob_middle(rest, segments.subrange(1, segments.len() - 1)) {
                Some(left) => left.len() >= segments.last().len() && text::spec_ends_with(
                    left,
                    segments.last(),
                ),
                None => false,
            }
        },
    }
}

/// `*`-only globbing; see [`spec_glob`].
pub fn glob(pattern: &str, value: &str) -> (b: bool)
    ensures
        b == spec_glob(pattern@, value@),
{
    let segments = text::split(pattern, '*');
    proof {
        text::lemma_split_nonempty(pattern@, '*');
    }
    let rest = match text::strip_prefix(value, &segments[0]) {
        Some(rest) => rest,
        None => return false,
    };
    if segments.len() == 1 {
        return text::chars_of(&rest).len() == 0;
    }
    let last = segments.len() - 1;
    let ghost middle = views(segments@).subrange(1, last as int);
    let mut left = rest.clone();
    let mut k: usize = 1;
    while k < last
        invariant
            views(segments@) == text::spec_split(pattern@, '*'),
            segments@.len() > 1,
            text::spec_strip_prefix(value@, segments@[0]@) == Some(rest@),
            1 <= k <= last,
            last == segments@.len() - 1,
            middle == views(segments@).subrange(1, last as int),
            spec_glob_middle(rest@, middle) == spec_glob_middle(
                left@,
                views(segments@).subrange(k as int, last as int),
            ),
        decreases last - k,
    {
        let ghost parts = views(segments@).subrange(k as int, last as int);
        proof {
            assert(parts[0] == segments@[k as int]@);
            assert(parts.drop_first() =~= views(segments@).subrange(k + 1, last as int));
        }
        match text::split_once_at(&left, &segments[k]) {
            Some((_before, after)) => {
                left = after;
            },
            None => return false,
        }
        k = k + 1;
    }
    proof {
        assert(views(segments@).subrange(last as int, last as int) =~= Seq::<Seq<char>>::empty());
    }
    let closing = &segments[last];
    let left_chars = text::chars_of(&left);
    let closing_chars = text::chars_of(closing);
    left_chars.len() >= closing_chars.len() && text::ends_with(&left_chars, &closing_chars)
}

/// `*` alone matches every value.
pub proof fn lemma_star_matches_everything(value: Seq<char>)
    ensures
        spec_glob("*"@, value),
{
    reveal_strlit("*");
    let pattern = "*"@;
    assert(pattern.len() == 1 && pattern[0] == '*');
    text::lemma_index_of_is(pattern, '*', 0);
    let tail = pattern.skip(1);
    assert(tail.len() == 0);
    text::lemma_index_of_is(tail, '*', -1);
    assert(text::spec_split(tail, '*') == seq![tail]);
    let segments = text::spec_split(pattern, '*');
    assert(segments == seq![pattern.take(0)] + text::spec_split(tail, '*'));
    assert(segments =~= seq![pattern.take(0), tail]);
    assert(segments[0] =~= Seq::<char>::empty());
    assert(segments.last() =~= Seq::<char>::empty());
    assert(value.take(0) =~= segments[0]);
    assert(text::spec_starts_with(value, segments[0]));
    assert(text::spec_strip_prefix(value, segments[0]) == Some(value.skip(0)));
    assert(segments.subrange(1, segments.len() - 1) =~= Seq::<Seq<char>>::empty());
    assert(spec_glob_middle(value.skip(0), Seq::<Seq<char>>::empty()) == Some(value.skip(0)));
    let left = value.skip(0);
    assert(left.skip(left.len() - 0) =~= Seq::<char>::empty());
    assert(text::spec_ends_with(left, segments.last()));
}

/// A pattern with no `*` matches exactly itself.
pub proof fn lemma_literal_matches_itself_only(pattern: Seq<char>, value: Seq<char>)
    requires
        !text::spec_has_char(pattern, '*'),
    ensures
        spec_glob(pattern, value) <==> value == pattern,
{
    text::lemma_split_without(pattern, '*');
    if value == pattern {
        assert(value.take(pattern.len() as int) =~= pattern);
    }
    if spec_glob(pattern, value) {
        assert(value =~= value.take(pattern.len() as int) + value.skip(pattern.len() as int));
    }
}

/// Whether one optional field of a rule matches: unset matches anything.
pub open spec fn spec_field_matches(want: Option<String>, hosted: Option<Hosted>, part: int) -> bool {
    match want {
        None => true,
        Some(w) => match hosted {
            None => false,
            Some(h) => spec_glob(
                w@,
                if part == 0 {
                    h.host@
                } else if part == 1 {
                    h.owner@
                } else {
                    h.name@
                },
            ),
        },
    }
}

/// Whether every field a rule sets matches this repository: its hosted coordinates
/// by glob, and its checkout path by glob after `~` is expanded against `home`.
pub open spec fn spec_matches(
    criteria: RuleMatch,
    identity: Normalized,
    checkout: Seq<char>,
    home: Option<Seq<char>>,
) -> bool {
    &&& spec_field_matches(criteria.host, identity.hosted, 0)
    &&& spec_field_matches(criteria.owner, identity.hosted, 1)
    &&& spec_field_matches(criteria.name, identity.hosted, 2)
    &&& match criteria.path {
        None => true,
        Some(want) => spec_glob(home::spec_expand_tilde(want@, home), checkout),
    }
}

fn field_matches(want: &Option<String>, hosted: &Option<Hosted>, part: u8) -> (b: bool)
    requires
        part < 3,
    ensures
        b == spec_field_matches(*want, *hosted, part as int),
{
    match want {
        None => true,
        Some(w) => match hosted {
            None => false,
            Some(h) => {
                let value = if part == 0 {
                    &h.host
                } else if part == 1 {
                    &h.owner
                } else {
                    &h.name
                };
                glob(w, value)
            },
        },
    }
}

/// Whether every field a rule sets matches this repository.
pub fn matches(criteria: &RuleMatch, identity: &Normalized, checkout: &str, home: Option<&str>) -> (b:
    bool)
    ensures
        b == spec_matches(*criteria, *identity, checkout@, text::opt_str_view(home)),
{
    let host = field_matches(&criteria.host, &identity.hosted, 0);
    let owner = field_matches(&criteria.owner, &identity.hosted, 1);
    let name = field_matches(&criteria.name, &identity.hosted, 2);
    let path = match &criteria.path {
        None => true,
        Some(want) => {
            let expanded = home::expand_tilde(want, home);
            glob(&expanded, checkout)
        },
    };
    host && owner && name && path
}

/// Each field of a rule is held to the repository's field of the same name: `host`
/// to its host, `owner` to its owner, `name` to its name — a field a rule leaves
/// unset matches anything, and a rule with no path matches a hosted repository
/// exactly when every field it sets globs its own coordinate.
pub proof fn lemma_each_field_is_held_to_its_own(
    criteria: RuleMatch,
    hosted: Hosted,
    checkout: Seq<char>,
    home: Option<Seq<char>>,
)
    requires
        criteria.path is None,
    ensures
        spec_matches(criteria, Normalized { hosted: Some(hosted) }, checkout, home) <==> {
            &&& (criteria.host matches Some(w) ==> spec_glob(w@, hosted.host@))
            &&& (criteria.owner matches Some(w) ==> spec_glob(w@, hosted.owner@))
            &&& (criteria.name matches Some(w) ==> spec_glob(w@, hosted.name@))
        },
{
}

/// The first rule, from `from` on, that matches this repository.
pub open spec fn spec_first_match(
    rules: Seq<Rule>,
    from: int,
    identity: Normalized,
    checkout: Seq<char>,
    home: Option<Seq<char>>,
) -> Option<int>
    decreases rules.len() - from,
{
    if from < 0 || from >= rules.len() {
        None
    } else if spec_matches(rules[from].criteria, identity, checkout, home) {
        Some(from)
    } else {
        spec_first_match(rules, from + 1, identity, checkout, home)
    }
}

/// Where a field of a resolved policy came from.
pub open spec fn spec_field_source(named: Seq<char>, from_rule: bool) -> Seq<char> {
    if from_rule {
        named
    } else {
        "the default"@
    }
}

fn field_source(named: &str, from_rule: bool) -> (out: String)
    ensures
        out@ == spec_field_source(named@, from_rule),
{
    if from_rule {
        text::owned(named)
    } else {
        text::owned("the default")
    }
}

fn copy_optional(value: &Option<String>) -> (out: Option<String>)
    ensures
        out == *value,
{
    match value {
        Some(s) => Some(s.clone()),
        None => None,
    }
}

pub(crate) fn copy_criteria(criteria: &RuleMatch) -> (out: RuleMatch)
    ensures
        out == *criteria,
{
    RuleMatch {
        host: copy_optional(&criteria.host),
        owner: copy_optional(&criteria.owner),
        name: copy_optional(&criteria.name),
        path: copy_optional(&criteria.path),
    }
}

/// Resolve the policy for one repository: the first matching rule wins, and what it
/// leaves unset comes from the default; with no match, the default whole.
pub fn resolve(
    file: &RulesFile,
    source: &RulesSource,
    identity: &Normalized,
    checkout: &str,
    home: Option<&str>,
) -> (r: Resolved)
    ensures
        r.source@ == spec_describe(*source),
        match spec_first_match(file.rules@, 0, *identity, checkout@, text::opt_str_view(home)) {
            Some(i) => {
                &&& r.policy == spec_effective(*file, i + 1)
                &&& r.matched is Some
                &&& r.matched.unwrap().index == i + 1
                &&& r.matched.unwrap().criteria == file.rules@[i].criteria
                &&& r.publication_from@ == spec_field_source(
                    "rule "@ + text::spec_decimal((i + 1) as nat),
                    file.rules@[i].publication is Some,
                )
                &&& r.approvals_from@ == spec_field_source(
                    "rule "@ + text::spec_decimal((i + 1) as nat),
                    file.rules@[i].approvals is Some,
                )
            },
            None => {
                &&& r.policy == file.default
                &&& r.matched is None
                &&& r.publication_from@ == "the default"@
                &&& r.approvals_from@ == "the default"@
            },
        },
{
    let ghost h = text::opt_str_view(home);
    let mut i: usize = 0;
    while i < file.rules.len()
        invariant
            i <= file.rules@.len(),
            spec_first_match(file.rules@, 0, *identity, checkout@, h) == spec_first_match(
                file.rules@,
                i as int,
                *identity,
                checkout@,
                h,
            ),
            h == text::opt_str_view(home),
        decreases file.rules@.len() - i,
    {
        let rule = &file.rules[i];
        if matches(&rule.criteria, identity, checkout, home) {
            let n = text::decimal((i + 1) as u64);
            let named = text::concat("rule ", &n);
            return Resolved {
                policy: effective(file, i + 1),
                source: source.describe(),
                matched: Some(Matched { index: i + 1, criteria: copy_criteria(&rule.criteria) }),
                publication_from: field_source(&named, rule.publication.is_some()),
                approvals_from: field_source(&named, rule.approvals.is_some()),
            };
        }
        i = i + 1;
    }
    Resolved {
        policy: file.default,
        source: source.describe(),
        matched: None,
        publication_from: text::owned("the default"),
        approvals_from: text::owned("the default"),
    }
}

// ---------------------------------------------------------------------------
// Narrowing
// ---------------------------------------------------------------------------

/// What a widening `--policy` is refused as.
pub open spec fn spec_widening(requested: MergePolicy, resolved: MergePolicy) -> Seq<char> {
    "--policy "@ + spec_spell(requested) + " would widen the policy this repository resolves to ("@
        + spec_spell(resolved) + "); a per-run policy may narrow but never widen"@
}

/// Apply a per-run publication policy: granted exactly as asked where it leaves at
/// least as much review in the path as the resolved one, refused where it would
/// leave less.
pub fn narrow_publication(resolved: MergePolicy, requested: MergePolicy) -> (r: Result<MergePolicy>)
    ensures
        match spec_narrowed(resolved, requested) {
            Some(granted) => r == Ok::<MergePolicy, Error>(granted),
            None => r is Err,
        },
        spec_review_rank(requested) >= spec_review_rank(resolved) ==> r == Ok::<
            MergePolicy,
            Error,
        >(requested),
        spec_review_rank(requested) < spec_review_rank(resolved) ==> r is Err
            && crate::git::spec_refused(r->Err_0, spec_widening(requested, resolved)),
{
    if review_rank(requested) < review_rank(resolved) {
        let mut reason = text::concat("--policy ", spell(requested));
        reason.append(" would widen the policy this repository resolves to (");
        reason.append(spell(resolved));
        reason.append("); a per-run policy may narrow but never widen");
        return Err(Error::Invalid { reason });
    }
    Ok(requested)
}

/// Apply a per-run `--policy` to a resolved policy, refusing anything that widens it.
pub fn narrow(resolved: &Policy, requested: MergePolicy) -> (r: Result<MergePolicy>)
    ensures
        spec_review_rank(requested) >= spec_review_rank(resolved.publication) ==> r == Ok::<
            MergePolicy,
            Error,
        >(requested),
        spec_review_rank(requested) < spec_review_rank(resolved.publication) ==> r is Err
            && crate::git::spec_refused(r->Err_0, spec_widening(requested, resolved.publication)),
{
    narrow_publication(resolved.publication, requested)
}

/// What a per-run policy comes to over a resolved one: granted as asked where it
/// leaves at least as much review in the path, and nothing where it would widen.
pub open spec fn spec_narrowed(resolved: MergePolicy, requested: MergePolicy) -> Option<MergePolicy> {
    if spec_review_rank(requested) >= spec_review_rank(resolved) {
        Some(requested)
    } else {
        None
    }
}

/// A per-run policy never leaves less review in the path than the one resolved:
/// whatever narrowing grants ranks at least as high, for every pair of policies.
pub proof fn lemma_narrowing_never_widens(resolved: MergePolicy, requested: MergePolicy)
    ensures
        spec_narrowed(resolved, requested) matches Some(granted) ==> spec_review_rank(granted)
            >= spec_review_rank(resolved),
        spec_narrowed(resolved, requested) is None ==> spec_review_rank(requested)
            < spec_review_rank(resolved),
{
}

/// Narrowing to the policy already resolved is always granted, unchanged.
pub proof fn lemma_narrowing_to_itself(policy: MergePolicy)
    ensures
        spec_narrowed(policy, policy) == Some(policy),
{
}

// ---------------------------------------------------------------------------
// Naming a branch on disk
// ---------------------------------------------------------------------------

/// A branch name with every `/` made a `-`.
pub open spec fn spec_flattened(branch: Seq<char>) -> Seq<char> {
    branch.map_values(|c: char| if c == '/' { '-' } else { c })
}

/// A character a directory name can carry as it stands.
pub open spec fn spec_slug_char(c: char) -> bool {
    text::spec_is_ascii_alnum(c) || c == '-' || c == '.' || c == '_'
}

/// A branch name that is safe to use as a directory name: the name with `/` made
/// `-` where what is left is plain, and otherwise the short digest of the name.
pub open spec fn spec_branch_slug(branch: Seq<char>) -> Seq<char> {
    if text::spec_all(spec_flattened(branch), |c: char| spec_slug_char(c)) {
        spec_flattened(branch)
    } else {
        ids::spec_short_digest(branch)
    }
}

/// A branch name that is safe to use as a directory name.
pub fn branch_slug(branch: &str) -> (out: String)
    ensures
        out@ == spec_branch_slug(branch@),
{
    let chars = text::chars_of(branch);
    let mut flattened = String::new();
    let mut plain = true;
    let mut i: usize = 0;
    while i < chars.len()
        invariant
            i <= chars@.len(),
            chars@ == branch@,
            flattened@ == spec_flattened(branch@).take(i as int),
            plain == text::spec_all(spec_flattened(branch@).take(i as int), |c: char| spec_slug_char(c)),
        decreases chars.len() - i,
    {
        let c = if chars[i] == '/' {
            '-'
        } else {
            chars[i]
        };
        text::push_char(&mut flattened, c);
        let fits = text::is_ascii_alnum(c) || c == '-' || c == '.' || c == '_';
        proof {
            assert(spec_flattened(branch@).take(i + 1) =~= spec_flattened(branch@).take(
                i as int,
            ).push(c));
            text::lemma_all_push(
                spec_flattened(branch@).take(i as int),
                c,
                |c: char| spec_slug_char(c),
            );
        }
        plain = plain && fits;
        i = i + 1;
    }
    proof {
        assert(spec_flattened(branch@).take(chars@.len() as int) =~= spec_flattened(branch@));
    }
    if plain {
        flattened
    } else {
        ids::short_digest(branch)
    }
}

/// A slug is plain directory-name text: every character of it is one a directory
/// name carries as it stands, or it is a digest.
pub proof fn lemma_slug_flattens_or_digests(branch: Seq<char>)
    ensures
        spec_branch_slug(branch) == spec_flattened(branch) || spec_branch_slug(branch)
            == ids::spec_short_digest(branch),
        !text::spec_has_char(spec_flattened(branch), '/'),
{
    if text::spec_has_char(spec_flattened(branch), '/') {
        let i = choose|i: int| 0 <= i < spec_flattened(branch).len() && spec_flattened(branch)[i] == '/';
        assert(spec_flattened(branch)[i] == (if branch[i] == '/' { '-' } else { branch[i] }));
    }
}

} // verus!
