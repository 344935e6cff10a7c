//! The typed answers the command line renders, and the decisions inside them.
//!
//! Every command answers a value first and a rendering second, so a consumer
//! embedding the crate and a user reading the command are told the same thing by
//! the same code. The reading of the registry and the rules, the host's answers
//! and the git calls stay with the caller; what they are composed into stands
//! here.

use vstd::prelude::*;
use crate::error::{Error, Result};
use crate::policy::{self, Resolved};
use crate::rules::{Approvals, MergePolicy, RuleMatch};
use crate::text::{self, views};
use crate::{gh, git};

verus! {

// ---------------------------------------------------------------------------
// Policies and registrations
// ---------------------------------------------------------------------------

/// The publication policy a repository resolves to, and where each half came from:
/// a policy read without knowing whether a rule or the default decided it is one
/// nobody can act on.
#[derive(Debug, Clone, PartialEq, Eq)]
pub struct ResolvedPolicy {
    /// How this repository publishes.
    pub publication: MergePolicy,
    /// What decided `publication`: a numbered rule of the rules file, or the default.
    pub publication_from: String,
    /// Whether a change of this repository needs an approval.
    pub approvals: Approvals,
    /// What decided `approvals`, in the same words `publication_from` uses.
    pub approvals_from: String,
}

impl ResolvedPolicy {
    /// The two policy fields of a resolution, each with what decided it.
    pub fn of(resolved: &Resolved) -> (out: ResolvedPolicy)
        ensures
            out.publication == resolved.policy.publication,
            out.publication_from@ == resolved.publication_from@,
            out.approvals == resolved.policy.approvals,
            out.approvals_from@ == resolved.approvals_from@,
    {
        ResolvedPolicy {
            publication: resolved.policy.publication,
            publication_from: resolved.publication_from.clone(),
            approvals: resolved.policy.approvals,
            approvals_from: resolved.approvals_from.clone(),
        }
    }
}

/// What runs a gate on an identity's merge path.
#[derive(Debug, Clone, PartialEq, Eq)]
pub enum MergePathCoverage {
    /// Nothing does: a publication there is unproven, which a caller warns about.
    Uncovered,
    /// Something does, named as the report prints it.
    Covered {
        /// What runs a gate there.
        by: String,
    },
}

impl MergePathCoverage {
    /// How a report names the coverage.
    pub fn describe(&self) -> (out: String)
        ensures
            out@ == match *self {
                MergePathCoverage::Uncovered => "none"@,
                MergePathCoverage::Covered { by } => by@,
            },
    {
        match self {
            MergePathCoverage::Uncovered => text::owned("none"),
            MergePathCoverage::Covered { by } => by.clone(),
        }
    }
}

/// What registering a checkout recorded, and what the identity publishes under.
#[derive(Debug, Clone, PartialEq, Eq)]
pub struct Registration {
    /// The identity key the checkout's origin normalized to.
    pub identity: String,
    /// The alias the checkout is addressed by.
    pub alias: String,
    /// The publication checkout the identity resolves to.
    pub checkout: String,
    /// The command this repository states as its complete bar.
    pub gate: String,
    /// The policy the identity publishes under, as its rules resolve it.
    pub policy: ResolvedPolicy,
    /// What runs a gate on the identity's merge path.
    pub coverage: MergePathCoverage,
}

/// A source a host protects a branch from.
#[derive(Debug, Clone, Copy, PartialEq, Eq, Structural)]
pub enum ProtectionSource {
    /// The repository's rulesets.
    Rulesets,
    /// The branch's own protection.
    BranchProtection,
}

/// How a report names a protection source.
pub open spec fn spec_source_words(source: ProtectionSource) -> Seq<char> {
    match source {
        ProtectionSource::Rulesets => "the repository's rulesets"@,
        ProtectionSource::BranchProtection => "branch protection"@,
    }
}

impl ProtectionSource {
    /// How a report names this source.
    pub fn describe(self) -> (out: &'static str)
        ensures
            out@ == spec_source_words(self),
    {
        match self {
            ProtectionSource::Rulesets => "the repository's rulesets",
            ProtectionSource::BranchProtection => "branch protection",
        }
    }
}

/// What an identity's host says it requires before a merge on a base, and which of
/// its protection sources it could not consult — so a list that may be incomplete
/// says so.
#[derive(Debug, Clone, PartialEq, Eq)]
pub struct RequiredChecks {
    /// The checks it requires, by name, in order.
    pub checks: Vec<String>,
    /// Each source that went unconsulted, in source order, with why.
    pub unconsulted: Vec<(ProtectionSource, String)>,
}

impl RequiredChecks {
    /// Whether every source was consulted, so the list is the whole answer.
    pub fn complete(&self) -> (b: bool)
        ensures
            b == (self.unconsulted@.len() == 0),
    {
        self.unconsulted.len() == 0
    }
}

/// What an identity's host says it requires: three answers, none collapsing into
/// another — "nothing required" and "unreadable" send a consumer opposite ways.
#[derive(Debug, Clone, PartialEq, Eq)]
pub enum RequiredChecksAnswer {
    /// The identity is not hosted anywhere this build answers for.
    NotHosted,
    /// The host was asked and refused, or the base could not be read.
    Unreadable {
        /// What refused, in its own words.
        reason: String,
    },
    /// The host answered about this base.
    Answered {
        /// The base the checks were read for.
        base: String,
        /// What it said.
        checks: RequiredChecks,
    },
}

/// What the audit answers for one identity: not hosted where the key names no
/// hosted repository, and otherwise what asking the host about its base came to
/// (`asked`, consulted only for a hosted identity).
pub fn required_checks(key: &str, asked: std::result::Result<(String, RequiredChecks), String>) -> (r:
    RequiredChecksAnswer)
    ensures
        gh::spec_slug(key@) is None ==> r is NotHosted,
        gh::spec_slug(key@) is Some ==> match asked {
            Ok((base, checks)) => (r matches RequiredChecksAnswer::Answered { base: b, checks: c } && b == base && c == checks),
            Err(why) => (r matches RequiredChecksAnswer::Unreadable { reason } && reason == why),
        },
{
    match gh::slug(key) {
        None => RequiredChecksAnswer::NotHosted,
        Some(_) => match asked {
            Ok((base, checks)) => RequiredChecksAnswer::Answered { base, checks },
            Err(reason) => RequiredChecksAnswer::Unreadable { reason },
        },
    }
}

/// What an audit of gates found about one checkout.
#[derive(Debug, Clone, PartialEq, Eq)]
pub struct CheckoutAudit {
    /// The policy this checkout publishes under.
    pub policy: ResolvedPolicy,
    /// What runs a gate on its merge path, decided from that policy.
    pub coverage: MergePathCoverage,
}

/// One registered checkout of an identity.
#[derive(Debug, Clone, PartialEq, Eq)]
pub struct RegisteredCheckout {
    /// The alias it is addressed by.
    pub alias: String,
    /// Where it is.
    pub path: String,
    /// The policy it publishes under and what covers its merge path, asked only
    /// when the audit was.
    pub audit: Option<CheckoutAudit>,
}

/// One registered repository identity, as the listing shows it.
#[derive(Debug, Clone, PartialEq, Eq)]
pub struct RegisteredRepository {
    /// The identity key: the normalized origin every checkout of it shares.
    pub identity: String,
    /// The command this repository states as its complete bar.
    pub gate: String,
    /// Its registered checkouts, in alias order.
    pub checkouts: Vec<RegisteredCheckout>,
    /// What the identity's host requires on its base; none where nobody asked.
    pub required_checks: Option<RequiredChecksAnswer>,
}

/// One identity of the registry: its key and its gate.
#[derive(Debug, Clone)]
pub struct RegistryIdentity {
    /// The identity key.
    pub key: String,
    /// The command the repository states as its complete bar.
    pub gate: String,
}

/// One checkout of the registry: its alias, the identity it belongs to, and where
/// it is.
#[derive(Debug, Clone)]
pub struct RegistryCheckout {
    /// The alias it is addressed by.
    pub alias: String,
    /// The identity key it belongs to.
    pub identity: String,
    /// Where it is.
    pub path: String,
}

/// The checkouts of one identity, in registry order, as `(alias, path)`.
pub open spec fn spec_checkouts_of(checkouts: Seq<RegistryCheckout>, key: Seq<char>) -> Seq<
    (Seq<char>, Seq<char>),
> {
    checkouts.filter(|c: RegistryCheckout| c.identity@ == key).map_values(
        |c: RegistryCheckout| (c.alias@, c.path@),
    )
}

/// A listed checkout as contracts speak of it.
pub open spec fn checkout_view(c: RegisteredCheckout) -> (Seq<char>, Seq<char>) {
    (c.alias@, c.path@)
}

/// Whether `listed` is the registry as a listing: one row per identity in registry
/// order, each with its gate and its checkouts, nothing audited and nothing asked.
pub open spec fn spec_is_listing(
    identities: Seq<RegistryIdentity>,
    checkouts: Seq<RegistryCheckout>,
    listed: Seq<RegisteredRepository>,
) -> bool {
    &&& listed.len() == identities.len()
    &&& forall|i: int|
        0 <= i < listed.len() ==> {
            let row = #[trigger] listed[i];
            &&& row.identity@ == identities[i].key@
            &&& row.gate@ == identities[i].gate@
            &&& row.checkouts@.map_values(|c: RegisteredCheckout| checkout_view(c))
                == spec_checkouts_of(checkouts, identities[i].key@)
            &&& forall|j: int| 0 <= j < row.checkouts@.len() ==> (#[trigger] row.checkouts@[j]).audit is None
            &&& row.required_checks is None
        }
}

fn checkouts_of(checkouts: &[RegistryCheckout], key: &str) -> (out: Vec<RegisteredCheckout>)
    ensures
        out@.map_values(|c: RegisteredCheckout| checkout_view(c)) == spec_checkouts_of(checkouts@, key@),
        forall|j: int| 0 <= j < out@.len() ==> (#[trigger] out@[j]).audit is None,
{
    let ghost keep = |c: RegistryCheckout| c.identity@ == key@;
    let mut out: Vec<RegisteredCheckout> = Vec::new();
    let mut i: usize = 0;
    while i < checkouts.len()
        invariant
            i <= checkouts@.len(),
            keep == (|c: RegistryCheckout| c.identity@ == key@),
            out@.map_values(|c: RegisteredCheckout| checkout_view(c)) == checkouts@.take(
                i as int,
            ).filter(keep).map_values(|c: RegistryCheckout| (c.alias@, c.path@)),
            forall|j: int| 0 <= j < out@.len() ==> (#[trigger] out@[j]).audit is None,
        decreases checkouts.len() - i,
    {
        let ghost prefix = checkouts@.take(i as int);
        proof {
            assert(checkouts@.take(i + 1) =~= prefix.push(checkouts@[i as int]));
            prefix.lemma_filter_push(checkouts@[i as int], keep);
        }
        if text::str_eq(&checkouts[i].identity, key) {
            let row = RegisteredCheckout {
                alias: checkouts[i].alias.clone(),
                path: checkouts[i].path.clone(),
                audit: None,
            };
            let ghost before = out@;
            out.push(row);
            proof {
                assert(out@ =~= before.push(row));
                assert(out@.map_values(|c: RegisteredCheckout| checkout_view(c)) =~= before.map_values(
                    |c: RegisteredCheckout| checkout_view(c),
                ).push(checkout_view(row)));
                assert(checkouts@.take(i + 1).filter(keep) =~= prefix.filter(keep).push(
                    checkouts@[i as int],
                ));
                assert(out@.map_values(|c: RegisteredCheckout| checkout_view(c)) =~= checkouts@.take(
                    i + 1,
                ).filter(keep).map_values(|c: RegistryCheckout| (c.alias@, c.path@)));
            }
        } else {
            proof {
                assert(checkouts@.take(i + 1).filter(keep) =~= prefix.filter(keep));
            }
        }
        i = i + 1;
    }
    proof {
        assert(checkouts@.take(checkouts@.len() as int) =~= checkouts@);
    }
    out
}

/// The registry as a listing: one row per identity in registry order, each with its
/// gate and its checkouts in registry order — the one enumeration both the listing
/// and [`registered_identities`] answer from.
pub fn repositories(identities: &[RegistryIdentity], checkouts: &[RegistryCheckout]) -> (out: Vec<
    RegisteredRepository,
>)
    ensures
        spec_is_listing(identities@, checkouts@, out@),
{
    let mut out: Vec<RegisteredRepository> = Vec::new();
    let mut i: usize = 0;
    while i < identities.len()
        invariant
            i <= identities@.len(),
            spec_is_listing(identities@.take(i as int), checkouts@, out@),
        decreases identities.len() - i,
    {
        let rows = checkouts_of(checkouts, &identities[i].key);
        let row = RegisteredRepository {
            identity: identities[i].key.clone(),
            gate: identities[i].gate.clone(),
            checkouts: rows,
            required_checks: None,
        };
        out.push(row);
        i = i + 1;
    }
    proof {
        assert(identities@.take(identities@.len() as int) =~= identities@);
    }
    out
}

/// The identity keys of the registry, in registry order.
pub open spec fn spec_identities(identities: Seq<RegistryIdentity>) -> Seq<Seq<char>> {
    identities.map_values(|i: RegistryIdentity| i.key@)
}

/// Every registered identity, in the order the listing shows them.
pub fn registered_identities(identities: &[RegistryIdentity], checkouts: &[RegistryCheckout]) -> (out:
    Vec<String>)
    ensures
        views(out@) == spec_identities(identities@),
{
    let listed = repositories(identities, checkouts);
    let mut out: Vec<String> = Vec::new();
    let mut i: usize = 0;
    while i < listed.len()
        invariant
            i <= listed@.len(),
            spec_is_listing(identities@, checkouts@, listed@),
            views(out@) == spec_identities(identities@).take(i as int),
        decreases listed.len() - i,
    {
        let ghost before = views(out@);
        out.push(listed[i].identity.clone());
        proof {
            assert(views(out@) =~= before.push(listed@[i as int].identity@));
            assert(spec_identities(identities@).take(i + 1) =~= spec_identities(identities@).take(
                i as int,
            ).push(identities@[i as int].key@));
        }
        i = i + 1;
    }
    proof {
        assert(spec_identities(identities@).take(listed@.len() as int) =~= spec_identities(
            identities@,
        ));
    }
    out
}

/// The identities a caller asks for and the rows the listing shows cannot come
/// apart: for one registry they are the same identities in the same order.
pub proof fn lemma_identities_are_the_listing(
    identities: Seq<RegistryIdentity>,
    checkouts: Seq<RegistryCheckout>,
    listed: Seq<RegisteredRepository>,
    keys: Seq<Seq<char>>,
)
    requires
        spec_is_listing(identities, checkouts, listed),
        keys == spec_identities(identities),
    ensures
        keys.len() == listed.len(),
        forall|i: int| 0 <= i < keys.len() ==> keys[i] == (#[trigger] listed[i]).identity@,
{
}

/// What one repository argument resolves to.
#[derive(Debug, Clone, PartialEq, Eq)]
pub struct ResolvedRepository {
    /// The identity key.
    pub identity: String,
    /// The alias of the checkout the argument selected.
    pub alias: String,
    /// The origin the identity was derived from.
    pub origin: String,
    /// The command this repository states as its complete bar.
    pub gate: String,
    /// The publication checkout: never worked in, only ever fast-forwarded.
    pub publication_checkout: String,
    /// The policy it publishes under.
    pub policy: ResolvedPolicy,
}

// ---------------------------------------------------------------------------
// Requests
// ---------------------------------------------------------------------------

/// What to publish, for the branch-keyed verb that takes completed work.
#[derive(Debug, Clone, PartialEq, Eq)]
pub struct BranchPublishRequest {
    /// The repository the branch belongs to, exactly as `--repo` takes one.
    pub repo: String,
    /// The branch to publish.
    pub branch: String,
    /// The subject to land it under, or none to compose one from its commits.
    pub title: Option<String>,
    /// The body of the change request, where one is opened.
    pub body: Option<String>,
    /// A policy to narrow to; it may only ask for more review than the rules do.
    pub policy: Option<MergePolicy>,
}

/// What to recover, for the branch-keyed verb that takes work a step left behind.
#[derive(Debug, Clone, PartialEq, Eq)]
pub struct RecoverRequest {
    /// The repository the branch belongs to, as `--repo` takes one.
    pub repo: String,
    /// The branch to recover.
    pub branch: String,
    /// The subject to land it under, or none to compose one from its commits.
    pub title: Option<String>,
    /// The body of the change request, where one is opened.
    pub body: Option<String>,
}

/// Which branch to make reachable from an identity's registered checkouts.
#[derive(Debug, Clone, PartialEq, Eq)]
pub struct ImportRequest {
    /// The repository to import into, as `--repo` takes one.
    pub repo: String,
    /// The branch to import.
    pub branch: String,
    /// Where to take it from, or none to search the identity's own locations.
    pub from: Option<String>,
    /// The name to write it under, or none to keep its own.
    pub under: Option<String>,
}

/// Which branches to merge into their base, in order.
#[derive(Debug, Clone, PartialEq, Eq)]
pub struct IntegrateRequest {
    /// The branches to take, in the order they are to be taken.
    pub branches: Vec<String>,
    /// Whether to push the advanced base.
    pub push: bool,
}

impl Default for IntegrateRequest {
    fn default() -> (r: IntegrateRequest)
        ensures
            r.branches@.len() == 0,
            !r.push,
    {
        IntegrateRequest { branches: Vec::new(), push: false }
    }
}

/// The stream a verb records on: its name and what it acts on, flattened.
pub open spec fn spec_stream_token(verb: Seq<char>, subject: Seq<char>) -> Seq<char> {
    verb + "-"@ + policy::spec_branch_slug(subject)
}

/// The stream a branch-keyed or repository-keyed verb records on: the verb's name
/// and the branch (or alias) it acts on, flattened as a directory name.
pub fn stream_token(verb: &str, subject: &str) -> (out: String)
    ensures
        out@ == spec_stream_token(verb@, subject@),
{
    let slug = policy::branch_slug(subject);
    text::concat3(verb, "-", &slug)
}

// ---------------------------------------------------------------------------
// Sync
// ---------------------------------------------------------------------------

/// What one fast-forward of a publication checkout did.
#[derive(Debug, Clone, PartialEq, Eq)]
pub struct Synced {
    /// The identity whose checkout was synced.
    pub identity: String,
    /// The branch it is on, which is the only branch a sync ever moves.
    pub branch: String,
    /// The checkout itself.
    pub checkout: String,
    /// The commit it was on before.
    pub before: String,
    /// The commit it is on now.
    pub after: String,
}

impl Synced {
    /// Whether the fast-forward moved the checkout, or found it already level.
    pub fn moved(&self) -> (b: bool)
        ensures
            b == (self.before@ != self.after@),
    {
        !text::str_eq(&self.before, &self.after)
    }
}

/// What a sync of a branch the checkout does not have checked out is refused as.
pub open spec fn spec_not_checked_out(checkout: Seq<char>, branch: Seq<char>) -> Seq<char> {
    checkout + " does not have "@ + text::spec_debug_quoted(branch)
        + " checked out; sync only ever fast-forwards the branch a checkout is already on"@
}

/// The branch a sync fast-forwards: the one asked for (`asked`, which git must accept
/// as a branch: `asked_valid`), or else the origin's default branch — and only where
/// it is the branch the checkout has checked out (`current`).
pub fn sync_branch(
    checkout: &str,
    asked: Option<&str>,
    asked_valid: bool,
    default: &str,
    current: &str,
) -> (r: Result<String>)
    ensures
        match asked {
            Some(a) => if !asked_valid {
                r is Err && git::spec_refused(
                    r->Err_0,
                    text::spec_debug_quoted(a@) + " is not a valid branch name: it is not a valid branch name"@,
                )
            } else if current@ == a@ {
                r is Ok && r->Ok_0@ == a@
            } else {
                r is Err && git::spec_refused(r->Err_0, spec_not_checked_out(checkout@, a@))
            },
            None => if current@ == default@ {
                r is Ok && r->Ok_0@ == default@
            } else {
                r is Err && git::spec_refused(r->Err_0, spec_not_checked_out(checkout@, default@))
            },
        },
{
    let branch = match asked {
        Some(a) => {
            if !asked_valid {
                let quoted = text::debug_quoted(a);
                let reason = text::concat(
                    &quoted,
                    " is not a valid branch name: it is not a valid branch name",
                );
                return Err(Error::Invalid { reason });
            }
            text::owned(a)
        },
        None => text::owned(default),
    };
    if !text::str_eq(current, &branch) {
        let quoted = text::debug_quoted(&branch);
        let mut reason = text::concat3(checkout, " does not have ", &quoted);
        reason.append(" checked out; sync only ever fast-forwards the branch a checkout is already on",
        );
        return Err(Error::Invalid { reason });
    }
    Ok(branch)
}

// ---------------------------------------------------------------------------
// Rules
// ---------------------------------------------------------------------------

/// The rule a repository matched, and what it matched on.
#[derive(Debug, Clone, PartialEq, Eq)]
pub struct MatchedRule {
    /// Its one-based position in the rules file, which is the order that decided it.
    pub index: usize,
    /// What it matches on.
    pub criteria: RuleMatch,
}

/// How one repository resolves against this host's rules.
#[derive(Debug, Clone, PartialEq, Eq)]
pub struct RulesCheck {
    /// The identity key the argument selected.
    pub identity: String,
    /// The publication checkout a `path:` rule is matched against.
    pub checkout: String,
    /// Where the rules came from: the file that was read, or the built-in default.
    pub rules: String,
    /// The rule that decided it, where one did; none means the default applies.
    pub matched: Option<MatchedRule>,
    /// What it resolved to.
    pub policy: ResolvedPolicy,
    /// The git trailer key provenance is written and read under.
    pub trailer_prefix: String,
    /// Whether the rules file set that prefix, or it is the built-in default.
    pub trailer_prefix_from_rules: bool,
}

/// How one repository resolves against this host's rules, from its resolution and
/// the provenance vocabulary the rules file states.
pub fn rules_check(
    identity: &str,
    checkout: &str,
    resolved: &Resolved,
    trailer_prefix: &str,
    trailer_prefix_from_rules: bool,
) -> (out: RulesCheck)
    ensures
        out.identity@ == identity@,
        out.checkout@ == checkout@,
        out.rules@ == resolved.source@,
        match resolved.matched {
            None => out.matched is None,
            Some(m) => (out.matched matches Some(mr) && mr.index == m.index && mr.criteria == m.criteria),
        },
        out.policy.publication == resolved.policy.publication,
        out.policy.publication_from@ == resolved.publication_from@,
        out.policy.approvals == resolved.policy.approvals,
        out.policy.approvals_from@ == resolved.approvals_from@,
        out.trailer_prefix@ == trailer_prefix@,
        out.trailer_prefix_from_rules == trailer_prefix_from_rules,
{
    RulesCheck {
        identity: text::owned(identity),
        checkout: text::owned(checkout),
        rules: resolved.source.clone(),
        matched: match &resolved.matched {
            None => None,
            Some(m) => Some(MatchedRule { index: m.index, criteria: policy::copy_criteria(&m.criteria) }),
        },
        policy: ResolvedPolicy::of(resolved),
        trailer_prefix: text::owned(trailer_prefix),
        trailer_prefix_from_rules,
    }
}

// ---------------------------------------------------------------------------
// What the command line prints of these answers
// ---------------------------------------------------------------------------

/// How the approvals half of a policy is spelled.
pub open spec fn spec_spell_approvals(approvals: Approvals) -> Seq<char> {
    match approvals {
        Approvals::Required => "required"@,
        Approvals::NotRequired => "none"@,
    }
}

/// How the approvals half of a policy is spelled: `required`, or `none`.
pub fn spell_approvals(approvals: Approvals) -> (out: &'static str)
    ensures
        out@ == spec_spell_approvals(approvals),
{
    match approvals {
        Approvals::Required => "required",
        Approvals::NotRequired => "none",
    }
}

/// The two lines every rendering of a resolved policy prints, each field with what
/// decided it.
pub fn policy_lines(indent: &str, resolved: &ResolvedPolicy) -> (out: (String, String))
    ensures
        out.0@ == indent@ + "publication: "@ + policy::spec_spell(resolved.publication) + " (from "@
            + resolved.publication_from@ + ")"@,
        out.1@ == indent@ + "approvals: "@ + spec_spell_approvals(resolved.approvals) + " (from "@
            + resolved.approvals_from@ + ")"@,
{
    let mut first = text::concat3(indent, "publication: ", policy::spell(resolved.publication));
    first.append(" (from ");
    first.append(&resolved.publication_from);
    first.append(")");
    let mut second = text::concat3(indent, "approvals: ", spell_approvals(resolved.approvals));
    second.append(" (from ");
    second.append(&resolved.approvals_from);
    second.append(")");
    (first, second)
}

/// The part of a rule's criteria one field sets, as `key: glob`.
pub open spec fn spec_criterion(key: Seq<char>, glob: Option<String>) -> Seq<Seq<char>> {
    match glob {
        Some(g) => seq![key + ": "@ + g@],
        None => seq![],
    }
}

/// What a rule matches on, as a report names it: `{host: .., owner: .., name: ..,
/// path: ..}` with the fields it sets.
pub open spec fn spec_describe_match(criteria: RuleMatch) -> Seq<char> {
    "{"@ + text::spec_join(
        spec_criterion("host"@, criteria.host) + spec_criterion("owner"@, criteria.owner)
            + spec_criterion("name"@, criteria.name) + spec_criterion("path"@, criteria.path),
        ", "@,
    ) + "}"@
}

fn push_criterion(parts: &mut Vec<String>, key: &str, glob: &Option<String>)
    ensures
        views(final(parts)@) == views(old(parts)@) + spec_criterion(key@, *glob),
{
    match glob {
        Some(g) => {
            let ghost before = views(parts@);
            let part = text::concat3(key, ": ", g);
            let ghost said = part@;
            parts.push(part);
            proof {
                assert(views(parts@) =~= before + seq![said]);
            }
        },
        None => {
            proof {
                assert(views(parts@) =~= views(parts@) + seq![]);
            }
        },
    }
}

/// What a rule matches on, as a report names it.
pub fn describe_match(criteria: &RuleMatch) -> (out: String)
    ensures
        out@ == spec_describe_match(*criteria),
{
    let mut parts: Vec<String> = Vec::new();
    push_criterion(&mut parts, "host", &criteria.host);
    push_criterion(&mut parts, "owner", &criteria.owner);
    push_criterion(&mut parts, "name", &criteria.name);
    push_criterion(&mut parts, "path", &criteria.path);
    proof {
        assert(views(parts@) =~= spec_criterion("host"@, criteria.host) + spec_criterion(
            "owner"@,
            criteria.owner,
        ) + spec_criterion("name"@, criteria.name) + spec_criterion("path"@, criteria.path));
    }
    let joined = text::join(&parts, ", ");
    text::concat3("{", &joined, "}")
}

impl RulesCheck {
    /// The report `rules check` prints for the repository argument `repo`, line by
    /// line: what it resolved to, the rule that decided (or that the default
    /// applies), the policy with its provenance, and the trailer vocabulary.
    pub fn render(&self, repo: &str) -> (out: Vec<String>)
        ensures
            out@.len() == 8,
            out@[0]@ == "repo: "@ + repo@,
            out@[1]@ == "identity: "@ + self.identity@,
            out@[2]@ == "checkout: "@ + self.checkout@,
            out@[3]@ == "rules: "@ + self.rules@,
            out@[4]@ == match self.matched {
                Some(m) => "matched: rule "@ + text::spec_decimal(m.index as nat) + " "@
                    + spec_describe_match(m.criteria),
                None => "matched: no rule; the default applies"@,
            },
            out@[5]@ == "publication: "@ + policy::spec_spell(self.policy.publication) + " (from "@
                + self.policy.publication_from@ + ")"@,
            out@[6]@ == "approvals: "@ + spec_spell_approvals(self.policy.approvals) + " (from "@
                + self.policy.approvals_from@ + ")"@,
            out@[7]@ == "trailer_prefix: "@ + self.trailer_prefix@ + " (from "@ + (if self.trailer_prefix_from_rules {
                "the rules file"@
            } else {
                "the default"@
            }) + ")"@,
    {
        let mut out: Vec<String> = Vec::new();
        out.push(text::concat("repo: ", repo));
        out.push(text::concat("identity: ", &self.identity));
        out.push(text::concat("checkout: ", &self.checkout));
        out.push(text::concat("rules: ", &self.rules));
        match &self.matched {
            Some(m) => {
                let index = text::decimal(m.index as u64);
                let described = describe_match(&m.criteria);
                let mut line = text::concat3("matched: rule ", &index, " ");
                line.append(&described);
                out.push(line);
            },
            None => out.push(text::owned("matched: no rule; the default applies")),
        }
        let (publication, approvals) = policy_lines("", &self.policy);
        proof {
            reveal_strlit("");
            assert(publication@ =~= "publication: "@ + policy::spec_spell(self.policy.publication)
                + " (from "@ + self.policy.publication_from@ + ")"@);
            assert(approvals@ =~= "approvals: "@ + spec_spell_approvals(self.policy.approvals)
                + " (from "@ + self.policy.approvals_from@ + ")"@);
        }
        out.push(publication);
        out.push(approvals);
        let mut trailer = text::concat3("trailer_prefix: ", &self.trailer_prefix, " (from ");
        trailer.append(if self.trailer_prefix_from_rules {
                "the rules file"
            } else {
                "the default"
            },
        );
        trailer.append(")");
        out.push(trailer);
        out
    }
}

impl Synced {
    /// The line a sync reports: which identity, which branch, whether it moved, the
    /// commit it is on now, and where.
    pub fn report(&self) -> (out: String)
        ensures
            out@ == self.identity@ + ": "@ + self.branch@ + " "@ + (if self.before@ != self.after@ {
                "fast-forwarded to"@
            } else {
                "was already level with"@
            }) + " origin/"@ + self.branch@ + " at "@ + self.after@ + ", in "@ + self.checkout@,
    {
        let mut out = text::concat3(&self.identity, ": ", &self.branch);
        out.append(" ");
        out.append(if self.moved() {
                "fast-forwarded to"
            } else {
                "was already level with"
            },
        );
        out.append(" origin/");
        out.append(&self.branch);
        out.append(" at ");
        out.append(&self.after);
        out.append(", in ");
        out.append(&self.checkout);
        out
    }
}

// ---------------------------------------------------------------------------
// The listing as the command prints it
// ---------------------------------------------------------------------------

/// Whether a source is among those left unconsulted.
pub open spec fn spec_unconsulted_has(unconsulted: Seq<(ProtectionSource, String)>, source: ProtectionSource) -> bool {
    exists|i: int| 0 <= i < unconsulted.len() && #[trigger] unconsulted[i].0 == source
}

/// The sources that were consulted, in source order, as a report names them.
pub open spec fn spec_consulted(unconsulted: Seq<(ProtectionSource, String)>) -> Seq<Seq<char>> {
    (if spec_unconsulted_has(unconsulted, ProtectionSource::Rulesets) {
        seq![]
    } else {
        seq![spec_source_words(ProtectionSource::Rulesets)]
    }) + (if spec_unconsulted_has(unconsulted, ProtectionSource::BranchProtection) {
        seq![]
    } else {
        seq![spec_source_words(ProtectionSource::BranchProtection)]
    })
}

/// What the audit says about the checks an identity's host requires on its base:
/// not hosted, unreadable, none required, the required checks, or — where a source
/// went unconsulted — an answer that says so, and an empty one that is unknown
/// rather than none.
pub open spec fn spec_required_checks_line(key: Seq<char>, answer: RequiredChecksAnswer) -> Seq<char> {
    match answer {
        RequiredChecksAnswer::NotHosted => "none: "@ + text::spec_debug_quoted(key) + " is not a "@
            + gh::HOST@ + " repository, so no host answers for it"@,
        RequiredChecksAnswer::Unreadable { reason } => "unreadable — "@ + reason@,
        RequiredChecksAnswer::Answered { base, checks } => {
            let names = text::spec_join(views(checks.checks@), ", "@);
            if checks.unconsulted@.len() == 0 {
                if checks.checks@.len() == 0 {
                    "none required: neither the repository's rulesets nor its branch protection names one for "@
                        + base@
                } else {
                    names + " (required by the repository's rulesets and branch protection for "@
                        + base@ + ")"@
                }
            } else {
                let unconsulted = text::spec_join(
                    checks.unconsulted@.map_values(
                        |u: (ProtectionSource, String)| spec_source_words(u.0) + " was not consulted: "@
                            + u.1@,
                    ),
                    "; "@,
                );
                let consulted = text::spec_join(spec_consulted(checks.unconsulted@), " and "@);
                if checks.checks@.len() == 0 {
                    "unknown — "@ + consulted + " name none for "@ + base@ + ", and "@ + unconsulted
                } else {
                    names + " (required by "@ + consulted + " for "@ + base@ + "; incomplete — "@
                        + unconsulted + ")"@
                }
            }
        },
    }
}

fn unconsulted_has(unconsulted: &Vec<(ProtectionSource, String)>, source: ProtectionSource) -> (b: bool)
    ensures
        b == spec_unconsulted_has(unconsulted@, source),
{
    let mut i: usize = 0;
    while i < unconsulted.len()
        invariant
            i <= unconsulted@.len(),
            forall|j: int| 0 <= j < i ==> #[trigger] unconsulted@[j].0 != source,
        decreases unconsulted.len() - i,
    {
        if unconsulted[i].0 == source {
            return true;
        }
        i = i + 1;
    }
    false
}

/// What the audit says about the checks an identity's host requires on its base.
pub fn required_checks_line(key: &str, answer: &RequiredChecksAnswer) -> (out: String)
    ensures
        out@ == spec_required_checks_line(key@, *answer),
{
    match answer {
        RequiredChecksAnswer::NotHosted => {
            let mut out = text::concat3("none: ", &text::debug_quoted(key), " is not a ");
            out.append(gh::HOST);
            out.append(" repository, so no host answers for it");
            out
        },
        RequiredChecksAnswer::Unreadable { reason } => text::concat("unreadable — ", reason),
        RequiredChecksAnswer::Answered { base, checks } => {
            let names = text::join(&checks.checks, ", ");
            if checks.complete() {
                if checks.checks.len() == 0 {
                    return text::concat(
                        "none required: neither the repository's rulesets nor its branch protection names one for ",
                        base,
                    );
                }
                let mut out = text::concat(
                    &names,
                    " (required by the repository's rulesets and branch protection for ",
                );
                out.append(base);
                out.append(")");
                return out;
            }
            let mut parts: Vec<String> = Vec::new();
            let mut i: usize = 0;
            while i < checks.unconsulted.len()
                invariant
                    i <= checks.unconsulted@.len(),
                    views(parts@) == checks.unconsulted@.take(i as int).map_values(
                        |u: (ProtectionSource, String)| spec_source_words(u.0) + " was not consulted: "@
                            + u.1@,
                    ),
                decreases checks.unconsulted.len() - i,
            {
                let (source, why) = &checks.unconsulted[i];
                let part = text::concat3(source.describe(), " was not consulted: ", why);
                let ghost before = views(parts@);
                let ghost said = part@;
                parts.push(part);
                proof {
                    assert(views(parts@) =~= before.push(said));
                    assert(checks.unconsulted@.take(i + 1) =~= checks.unconsulted@.take(i as int).push(
                        checks.unconsulted@[i as int],
                    ));
                    assert(views(parts@) =~= checks.unconsulted@.take(i + 1).map_values(
                        |u: (ProtectionSource, String)| spec_source_words(u.0) + " was not consulted: "@
                            + u.1@,
                    ));
                }
                i = i + 1;
            }
            proof {
                assert(checks.unconsulted@.take(checks.unconsulted@.len() as int) =~= checks.unconsulted@);
            }
            let unconsulted = text::join(&parts, "; ");
            let mut consulted_parts: Vec<String> = Vec::new();
            if !unconsulted_has(&checks.unconsulted, ProtectionSource::Rulesets) {
                consulted_parts.push(text::owned(ProtectionSource::Rulesets.describe()));
            }
            if !unconsulted_has(&checks.unconsulted, ProtectionSource::BranchProtection) {
                consulted_parts.push(text::owned(ProtectionSource::BranchProtection.describe()));
            }
            proof {
                assert(views(consulted_parts@) =~= spec_consulted(checks.unconsulted@));
            }
            let consulted = text::join(&consulted_parts, " and ");
            if checks.checks.len() == 0 {
                let mut out = text::concat3("unknown — ", &consulted, " name none for ");
                out.append(base);
                out.append(", and ");
                out.append(&unconsulted);
                out
            } else {
                let mut out = text::concat3(&names, " (required by ", &consulted);
                out.append(" for ");
                out.append(base);
                out.append("; incomplete — ");
                out.append(&unconsulted);
                out.append(")");
                out
            }
        },
    }
}

/// The lines one checkout contributes to the listing: its alias and path, and
/// where it was audited, its policy and what covers its merge path.
pub open spec fn spec_checkout_lines(c: RegisteredCheckout) -> Seq<Seq<char>> {
    seq!["  "@ + c.alias@ + "\t"@ + c.path@] + match c.audit {
        None => seq![],
        Some(audit) => seq![
            "    publication: "@ + policy::spec_spell(audit.policy.publication) + " (from "@
                + audit.policy.publication_from@ + ")"@,
            "    approvals: "@ + spec_spell_approvals(audit.policy.approvals) + " (from "@
                + audit.policy.approvals_from@ + ")"@,
            "    merge-path coverage: "@ + match audit.coverage {
                MergePathCoverage::Uncovered => "none"@,
                MergePathCoverage::Covered { by } => by@,
            },
        ],
    }
}

/// Every checkout's lines, in order.
pub open spec fn spec_checkouts_lines(checkouts: Seq<RegisteredCheckout>) -> Seq<Seq<char>>
    decreases checkouts.len(),
{
    if checkouts.len() == 0 {
        seq![]
    } else {
        spec_checkouts_lines(checkouts.drop_last()) + spec_checkout_lines(checkouts.last())
    }
}

/// The lines one identity contributes to the listing: its key and gate, what its
/// host requires where that was asked, and its checkouts.
pub open spec fn spec_repository_lines(r: RegisteredRepository) -> Seq<Seq<char>> {
    seq![r.identity@ + "\t"@ + r.gate@] + match r.required_checks {
        None => seq![],
        Some(answer) => seq!["  required checks: "@ + spec_required_checks_line(r.identity@, answer)],
    } + spec_checkouts_lines(r.checkouts@)
}

/// Every identity's lines, in order.
pub open spec fn spec_listing_lines(listed: Seq<RegisteredRepository>) -> Seq<Seq<char>>
    decreases listed.len(),
{
    if listed.len() == 0 {
        seq![]
    } else {
        spec_listing_lines(listed.drop_last()) + spec_repository_lines(listed.last())
    }
}

fn push_line(lines: &mut Vec<String>, line: String)
    ensures
        views(final(lines)@) == views(old(lines)@).push(line@),
{
    let ghost before = views(lines@);
    let ghost said = line@;
    lines.push(line);
    proof {
        assert(views(lines@) =~= before.push(said));
    }
}

fn checkout_lines(lines: &mut Vec<String>, c: &RegisteredCheckout)
    ensures
        views(final(lines)@) == views(old(lines)@) + spec_checkout_lines(*c),
{
    let ghost start = views(lines@);
    let mut first = text::concat3("  ", &c.alias, "\t");
    first.append(&c.path);
    push_line(lines, first);
    match &c.audit {
        None => {
            proof {
                assert(views(lines@) =~= start + spec_checkout_lines(*c));
            }
        },
        Some(audit) => {
            let (publication, approvals) = policy_lines("    ", &audit.policy);
            push_line(lines, publication);
            push_line(lines, approvals);
            let coverage = audit.coverage.describe();
            push_line(lines, text::concat("    merge-path coverage: ", &coverage));
            proof {
                reveal_strlit("    ");
                reveal_strlit("publication: ");
                reveal_strlit("    publication: ");
                reveal_strlit("approvals: ");
                reveal_strlit("    approvals: ");
                assert("    "@ + "publication: "@ =~= "    publication: "@);
                assert("    "@ + "approvals: "@ =~= "    approvals: "@);
                assert(views(lines@) =~= start + spec_checkout_lines(*c));
            }
        },
    }
}

impl RegisteredRepository {
    /// The lines this identity contributes to the listing.
    pub fn lines(&self) -> (out: Vec<String>)
        ensures
            views(out@) == spec_repository_lines(*self),
    {
        let mut lines: Vec<String> = Vec::new();
        push_line(&mut lines, text::concat3(&self.identity, "\t", &self.gate));
        match &self.required_checks {
            None => {},
            Some(answer) => {
                let line = required_checks_line(&self.identity, answer);
                push_line(&mut lines, text::concat("  required checks: ", &line));
            },
        }
        let ghost head = views(lines@);
        let mut i: usize = 0;
        while i < self.checkouts.len()
            invariant
                i <= self.checkouts@.len(),
                views(lines@) == head + spec_checkouts_lines(self.checkouts@.take(i as int)),
            decreases self.checkouts.len() - i,
        {
            checkout_lines(&mut lines, &self.checkouts[i]);
            proof {
                assert(self.checkouts@.take(i + 1).drop_last() =~= self.checkouts@.take(i as int));
                assert(views(lines@) =~= head + spec_checkouts_lines(self.checkouts@.take(i + 1)));
            }
            i = i + 1;
        }
        proof {
            assert(self.checkouts@.take(self.checkouts@.len() as int) =~= self.checkouts@);
        }
        lines
    }
}

/// The listing the repositories command prints: each identity's lines in order, or
/// that nothing is registered.
pub fn render_listing(listed: &[RegisteredRepository]) -> (out: Vec<String>)
    ensures
        views(out@) == if listed@.len() == 0 {
            seq!["no repositories registered"@]
        } else {
            spec_listing_lines(listed@)
        },
{
    let mut lines: Vec<String> = Vec::new();
    if listed.len() == 0 {
        push_line(&mut lines, text::owned("no repositories registered"));
        return lines;
    }
    let mut i: usize = 0;
    while i < listed.len()
        invariant
            i <= listed@.len(),
            views(lines@) == spec_listing_lines(listed@.take(i as int)),
        decreases listed.len() - i,
    {
        let more = listed[i].lines();
        let mut k: usize = 0;
        let ghost head = views(lines@);
        while k < more.len()
            invariant
                k <= more@.len(),
                views(lines@) == head + views(more@).take(k as int),
            decreases more.len() - k,
        {
            push_line(&mut lines, more[k].clone());
            proof {
                assert(views(more@).take(k + 1) =~= views(more@).take(k as int).push(more@[k as int]@));
            }
            k = k + 1;
        }
        proof {
            assert(views(more@).take(more@.len() as int) =~= views(more@));
            assert(listed@.take(i + 1).drop_last() =~= listed@.take(i as int));
        }
        i = i + 1;
    }
    proof {
        assert(listed@.take(listed@.len() as int) =~= listed@);
    }
    lines
}

/// What `onevcs register` prints of a registration: the identity, its alias, the
/// policy it resolves to, its gate, and what covers its merge path.
pub open spec fn spec_registration_lines(r: Registration) -> Seq<Seq<char>> {
    seq![
        r.identity@,
        "  alias: "@ + r.alias@,
        "  "@ + "publication: "@ + policy::spec_spell(r.policy.publication) + " (from "@ + r.policy.publication_from@
            + ")"@,
        "  "@ + "approvals: "@ + spec_spell_approvals(r.policy.approvals) + " (from "@ + r.policy.approvals_from@ + ")"@,
        "  gate: "@ + r.gate@,
        "  merge-path coverage: "@ + match r.coverage {
            MergePathCoverage::Uncovered => "none"@,
            MergePathCoverage::Covered { by } => by@,
        },
    ]
}

/// What `onevcs register` warns of, where nothing on the merge path runs a gate.
pub const UNPROVEN: &'static str = "onevcs: warning: nothing on this identity's merge path runs a gate, so a publication is unproven. Install an executable pre-push hook.";

impl Registration {
    /// What `onevcs register` prints, line by line.
    pub fn lines(&self) -> (out: Vec<String>)
        ensures
            views(out@) == spec_registration_lines(*self),
    {
        let (publication, approvals) = policy_lines("  ", &self.policy);
        let out = vec![
            self.identity.clone(),
            text::concat("  alias: ", &self.alias),
            publication,
            approvals,
            text::concat("  gate: ", &self.gate),
            text::concat("  merge-path coverage: ", &self.coverage.describe()),
        ];
        proof {
            assert(views(out@) =~= spec_registration_lines(*self));
        }
        out
    }

    /// The warning `onevcs register` gives where nothing covers the merge path, and
    /// nothing where something does.
    pub fn warning(&self) -> (out: Option<&'static str>)
        ensures
            out == (if self.coverage is Uncovered {
                Some(UNPROVEN)
            } else {
                None::<&'static str>
            }),
    {
        match self.coverage {
            MergePathCoverage::Uncovered => Some(UNPROVEN),
            MergePathCoverage::Covered { .. } => None,
        }
    }
}

} // verus!
