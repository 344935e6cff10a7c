use onevcs::branches::{check_version, resolve as resolve_prefix, sanitize, BranchesFile, FileSource};
use onevcs::declaration::RegistryId;
use onevcs::error::Error;
use onevcs::git::{Output, Pushed};
use onevcs::host::{ChangeId, Sha};
use onevcs::integrate::{
    admission_check, one, push_wanted, pushed_ending, settle, train, train_command, Admission, Candidate, Ending,
    Status, Step,
};
use onevcs::landed::{decide, Compared, Found, Landed, LandingEvidence, Tiers};
use onevcs::policy::{
    branch_slug, check_declared_version, glob, narrow_publication, resolve, review_rank,
    RulesSource,
};
use onevcs::rules::{Approvals, MergePolicy, Policy, Rule, RuleMatch, RulesFile};
use onevcs::store::{Hosted, Normalized};

fn reason(e: Error) -> String {
    match e {
        Error::Invalid { reason } => reason,
        other => panic!("expected an invalid-input refusal, got {other:?}"),
    }
}

#[test]
fn a_glob_matches_star_runs_and_literal_text() {
    assert!(glob("*", ""));
    assert!(glob("*", "anything/at all"));
    assert!(glob("github.com", "github.com"));
    assert!(!glob("github.com", "github.co"));
    assert!(glob("ow*er", "owner"));
    assert!(glob("a*b*c", "aXbYc"));
    assert!(!glob("a*b*c", "aXcYb"));
    assert!(glob("*.rs", "lib.rs"));
    assert!(!glob("a*a", "a"));
}

#[test]
fn narrowing_may_ask_for_more_review_and_never_less() {
    assert!(review_rank(MergePolicy::LocalDirect) < review_rank(MergePolicy::ChangeDirect));
    assert!(review_rank(MergePolicy::ChangeAuto) < review_rank(MergePolicy::ChangeOpen));
    assert_eq!(
        narrow_publication(MergePolicy::ChangeAuto, MergePolicy::ChangeOpen).unwrap(),
        MergePolicy::ChangeOpen
    );
    assert_eq!(
        narrow_publication(MergePolicy::ChangeAuto, MergePolicy::ChangeAuto).unwrap(),
        MergePolicy::ChangeAuto
    );
    assert_eq!(
        reason(narrow_publication(MergePolicy::ChangeOpen, MergePolicy::LocalDirect).unwrap_err()),
        "--policy local-direct would widen the policy this repository resolves to (change-open); a per-run policy may narrow but never widen"
    );
}

fn rules() -> RulesFile {
    RulesFile {
        version: 3,
        default: Policy { publication: MergePolicy::ChangeOpen, approvals: Approvals::Required },
        rules: vec![
            Rule {
                criteria: RuleMatch { host: Some("gitlab.com".to_owned()), owner: None, name: None, path: None },
                publication: Some(MergePolicy::ChangeDirect),
                approvals: None,
            },
            Rule {
                criteria: RuleMatch { host: None, owner: Some("me".to_owned()), name: None, path: None },
                publication: Some(MergePolicy::LocalDirect),
                approvals: Some(Approvals::NotRequired),
            },
            Rule {
                criteria: RuleMatch { host: None, owner: None, name: None, path: Some("~/scratch/*".to_owned()) },
                publication: None,
                approvals: Some(Approvals::NotRequired),
            },
        ],
        trailer_prefix: None,
    }
}

fn hosted(owner: &str) -> Normalized {
    Normalized {
        hosted: Some(Hosted { host: "github.com".to_owned(), owner: owner.to_owned(), name: "n".to_owned() }),
    }
}

#[test]
fn the_first_matching_rule_decides_and_the_default_fills_the_rest() {
    let file = rules();
    let source = RulesSource::File("/rules.yml".to_owned());
    let mine = resolve(&file, &source, &hosted("me"), "/x", None);
    assert_eq!(mine.policy, Policy { publication: MergePolicy::LocalDirect, approvals: Approvals::NotRequired });
    assert_eq!(mine.matched.as_ref().map(|m| m.index), Some(2));
    let scratch = resolve(&file, &source, &hosted("them"), "/home/u/scratch/r", Some("/home/u"));
    assert_eq!(scratch.policy.publication, MergePolicy::ChangeOpen);
    assert_eq!(scratch.policy.approvals, Approvals::NotRequired);
    assert_eq!(scratch.matched.as_ref().map(|m| m.index), Some(3));
    assert_eq!(scratch.publication_from, scratch.publication_from.clone());
    let none = resolve(&file, &source, &hosted("them"), "/elsewhere", Some("/home/u"));
    assert!(none.matched.is_none());
    assert_eq!(none.publication_from, "the default");
    assert_eq!(none.policy, file.default);
    assert!(!onevcs::policy::matches(&file.rules[1].criteria, &Normalized { hosted: None }, "/x", None));
    assert!(onevcs::policy::matches(
        &RuleMatch { host: None, owner: None, name: None, path: None },
        &Normalized { hosted: None },
        "/x",
        None
    ));
}

#[test]
fn a_rules_version_is_read_only_within_what_this_build_knows() {
    assert_eq!(check_declared_version("/r", None).unwrap(), false);
    assert_eq!(check_declared_version("/r", Some(1)).unwrap(), true);
    assert_eq!(check_declared_version("/r", Some(3)).unwrap(), false);
    assert_eq!(
        reason(check_declared_version("/r", Some(4)).unwrap_err()),
        "the rules file at /r declares version 4; this build reads versions 1 to 3"
    );
    assert!(check_declared_version("/r", Some(0)).is_err());
}

#[test]
fn a_branch_slug_flattens_a_plain_name_and_digests_any_other() {
    assert_eq!(branch_slug("feature/x-1.2"), "feature-x-1.2");
    let odd = branch_slug("feat/ü");
    assert_eq!(odd.len(), 12);
    assert!(odd.chars().all(|c| c.is_ascii_hexdigit()));
}

#[test]
fn a_proposal_sanitizes_to_one_name_git_accepts() {
    assert_eq!(sanitize("Fix: the #12 thing!").as_deref(), Some("Fix-the-12-thing"));
    assert_eq!(sanitize("a//b/").as_deref(), Some("a/b"));
    assert_eq!(sanitize("..a..b--c").as_deref(), Some("a.b-c"));
    assert_eq!(sanitize("x/name.lock").as_deref(), Some("x/name"));
    assert_eq!(sanitize("déjà vu").as_deref(), Some("d-j-vu"));
    assert_eq!(sanitize("---"), None);
    assert_eq!(sanitize(""), None);
    let once = sanitize("a weird//name.lock").unwrap();
    assert_eq!(sanitize(&once).as_deref(), Some(once.as_str()));
}

#[test]
fn the_branch_prefix_is_taken_from_the_highest_layer() {
    let file = BranchesFile { version: 1, prefix: "team/".to_owned() };
    let source = FileSource::File("/b.yml".to_owned());
    let over = resolve_prefix(&file, &source, Some(" env/ "), Some("me/"));
    assert_eq!((over.value.as_str(), over.from.as_str()), ("me/", "--branch-prefix on this open"));
    let env = resolve_prefix(&file, &source, Some(" env/ "), None);
    assert_eq!((env.value.as_str(), env.from.as_str()), ("env/", "ONEVCS_BRANCH_PREFIX in the environment"));
    let from_file = resolve_prefix(&file, &source, None, None);
    assert_eq!((from_file.value.as_str(), from_file.from.as_str()), ("team/", "prefix: of /b.yml"));
    let shipped = resolve_prefix(&BranchesFile::default(), &FileSource::Shipped, None, None);
    assert_eq!((shipped.value.as_str(), shipped.from.as_str()), ("", "the shipped default"));
    assert!(check_version("/b.yml", Some(0)).is_err());
    assert!(check_version("/b.yml", Some(2)).is_ok());
}

#[test]
fn a_registry_id_reads_back_from_its_spelling() {
    let id = RegistryId::try_from("crate:onevcs".to_owned()).unwrap();
    assert_eq!((id.registry(), id.name()), ("crate", "onevcs"));
    assert_eq!(id.spelled(), "crate:onevcs");
    let again = RegistryId::try_from(id.spelled()).unwrap();
    assert!(again.same(&id));
    assert!(RegistryId::try_from("onevcs".to_owned()).unwrap_err().contains("names no registry"));
    assert!(RegistryId::try_from(":x".to_owned()).unwrap_err().contains("has nothing before its colon"));
    assert!(RegistryId::try_from("Crate:x".to_owned()).unwrap_err().contains("names the registry \"Crate\""));
    assert!(RegistryId::try_from("crate:-x".to_owned()).unwrap_err().contains("not a name a registry serves"));
    assert!(RegistryId::try_from(format!("crate:{}", "a".repeat(130))).unwrap_err().contains("longer than 128"));
}

fn evidence(sha: &str) -> LandingEvidence {
    LandingEvidence::Trailer { commit: Sha(sha.to_owned()) }
}

#[test]
fn landing_is_decided_from_evidence_before_any_comparison() {
    let forked = Compared { forked: true, carried: false, subject_taken: false, behind: false };
    let whole = Found { commit: Sha("b".to_owned()), integrates: vec![true, true] };
    let part = Found { commit: Sha("a".to_owned()), integrates: vec![false, false, false, true] };
    let none = Tiers { recorded: None, change: None, trailers: vec![] };
    assert_eq!(
        decide(&Tiers { trailers: vec![part.clone(), whole.clone()], ..none.clone() }, forked),
        Landed::Yes { evidence: evidence("b") }
    );
    assert_eq!(
        decide(&Tiers { trailers: vec![part.clone()], ..none.clone() }, forked),
        Landed::InPart { evidence: evidence("a"), unlanded: 3 }
    );
    assert_eq!(decide(&none, forked), Landed::No);
    assert_eq!(decide(&none, Compared { carried: true, ..forked }), Landed::Unknown);
    assert_eq!(decide(&Tiers { trailers: vec![whole.clone()], ..none.clone() }, Compared { forked: false, ..forked }), Landed::No);
}

#[test]
fn the_most_certain_tier_answers_first() {
    let forked = Compared { forked: true, carried: false, subject_taken: false, behind: false };
    let whole = |sha: &str| Found { commit: Sha(sha.to_owned()), integrates: vec![true] };
    let part = |sha: &str| Found { commit: Sha(sha.to_owned()), integrates: vec![false, true] };
    let all = Tiers {
        recorded: Some(whole("r")),
        change: Some((whole("c"), "https://h/o/r/pull/7".to_owned())),
        trailers: vec![whole("t")],
    };
    assert_eq!(decide(&all, forked), Landed::Yes { evidence: LandingEvidence::RecordedLanding { commit: Sha("r".to_owned()) } });
    let below = Tiers { recorded: Some(part("r")), ..all.clone() };
    assert_eq!(
        decide(&below, forked),
        Landed::Yes {
            evidence: LandingEvidence::ChangeRequest { commit: Sha("c".to_owned()), change_url: "https://h/o/r/pull/7".to_owned() }
        }
    );
    let partial = Tiers { recorded: Some(part("r")), change: Some((part("c"), "u".to_owned())), trailers: vec![part("t")] };
    assert_eq!(
        decide(&partial, forked),
        Landed::InPart { evidence: LandingEvidence::RecordedLanding { commit: Sha("r".to_owned()) }, unlanded: 1 }
    );
    assert!(Landed::Yes { evidence: evidence("b") }.is_landed());
    assert_eq!(Landed::default(), Landed::Unknown);
    assert_eq!(Landed::No.tier(), "content comparison");
    assert_eq!(
        LandingEvidence::ChangeRequest { commit: Sha("c".to_owned()), change_url: "u".to_owned() }.tier(),
        "the change request's number in the base"
    );
    let _ = ChangeId("1".to_owned());
}

fn admission(team: bool, remote: bool, dirty: bool) -> Admission {
    Admission {
        key: "github.com/o/n".to_owned(),
        team,
        remote_workflow: remote,
        root: "/root".to_owned(),
        base: "main".to_owned(),
        dirty,
    }
}

#[test]
fn a_train_is_admitted_only_for_a_clean_local_identity() {
    let candidates = vec!["a".to_owned(), "b".to_owned()];
    let ok = [true, true];
    assert!(admission_check(&admission(false, false, false), &candidates, &ok, &ok, false).is_ok());
    let refused = reason(admission_check(&admission(true, false, false), &candidates, &ok, &ok, false).unwrap_err());
    assert!(refused.starts_with("direct integration is refused for identity \"github.com/o/n\" (repo_type: team)"));
    assert!(refused.contains("`onevcs publish-branch a --repo /root`, `onevcs publish-branch b --repo /root`"));
    assert!(admission_check(&admission(false, true, false), &candidates, &ok, &ok, false).is_err());
    assert!(admission_check(&admission(false, false, true), &candidates, &ok, &ok, false).is_err());
    assert!(admission_check(&admission(false, false, false), &candidates, &[true, false], &ok, false).is_err());
    assert!(admission_check(&admission(false, false, false), &candidates, &ok, &[true, false], false).is_err());
    let twice = vec!["a".to_owned(), "a".to_owned()];
    assert!(admission_check(&admission(false, false, false), &twice, &ok, &ok, false).is_err());
    assert_eq!(train_command(&candidates, true), "onevcs integrate a b --push");
}

#[test]
fn each_fact_about_a_candidate_skips_lands_or_lets_it_go_on() {
    assert_eq!(one("b", "/r", &Step::Landed(true)), Some(Status::Merged));
    assert_eq!(one("b", "/r", &Step::Landed(false)), Some(Status::AlreadyMerged));
    assert_eq!(one("b", "/r", &Step::Unattested(0)), None);
    assert_eq!(one("b", "/r", &Step::BaseReached(true)), None);
    assert_eq!(
        one("b", "/r", &Step::BaseReached(false)),
        Some(Status::Skipped("not-ready: the base advanced while this candidate was being built".to_owned()))
    );
    match one("b", "/r", &Step::Unattested(2)) {
        Some(Status::Skipped(why)) => assert!(why.starts_with("incomplete provenance (2 unattested commit(s))")),
        other => panic!("expected a skip, got {other:?}"),
    }
    match one("b", "/r", &Step::RemoteMerge(Some(vec!["src/a.rs".to_owned()]))) {
        Some(Status::Skipped(why)) => assert_eq!(why, "conflict with the current base in \"src/a.rs\""),
        other => panic!("expected a skip, got {other:?}"),
    }
    assert_eq!(Status::Skipped("x".to_owned()).describe(), "skipped (x)");
}

#[test]
fn a_train_ends_pushed_only_where_asked_and_accepted() {
    assert_eq!(Ending::of("a", "a"), Ending::Unchanged);
    assert_eq!(Ending::of("a", "b"), Ending::Advanced);
    assert!(Ending::AdvancedAndPushed.advanced() && Ending::AdvancedAndPushed.pushed());
    assert_eq!(push_wanted(Ending::Unchanged, true, true, "/r").unwrap(), false);
    assert_eq!(push_wanted(Ending::Advanced, true, true, "/r").unwrap(), true);
    assert!(push_wanted(Ending::Advanced, true, false, "/r").is_err());
    let accepted = Pushed::from_output(&Output { status: 0, stdout: String::new(), stderr: String::new() });
    assert_eq!(pushed_ending("main", &accepted).unwrap(), Ending::AdvancedAndPushed);
    let refused = Pushed::from_output(&Output {
        status: 1,
        stdout: "To origin\n!\trefs/heads/main:refs/heads/main\t[remote rejected] (pre-push hook declined)\nDone\n".to_owned(),
        stderr: "error: failed to push\n".to_owned(),
    });
    match pushed_ending("main", &refused) {
        Err(Error::PushRejected { reason }) => {
            assert!(reason.starts_with("the push of \"main\" was rejected by the merge path: "), "{reason}")
        }
        other => panic!("expected a rejection, got {other:?}"),
    }
}

fn candidate(branch: &str, steps: Vec<Step>) -> Candidate {
    Candidate { branch: branch.to_owned(), steps }
}

#[test]
fn a_candidate_is_settled_by_its_first_deciding_fact() {
    let c = candidate("b", vec![Step::Unattested(0), Step::BaseReached(false), Step::Landed(true)]);
    let settled = settle("/r", &c).unwrap();
    assert_eq!(settled.branch, "b");
    assert_eq!(
        settled.status,
        Status::Skipped("not-ready: the base advanced while this candidate was being built".to_owned())
    );
    assert!(settle("/r", &candidate("b", vec![Step::BaseReached(true)])).is_none());
}

#[test]
fn the_train_reports_one_outcome_per_candidate_in_the_order_offered() {
    let offered = vec![
        candidate("second", vec![Step::RemoteMerge(None), Step::Landed(true)]),
        candidate("first", vec![Step::Landed(false)]),
        candidate("third", vec![Step::RemoteMerge(Some(vec!["a.txt".to_owned()]))]),
    ];
    let o = train("main", "/r", &offered, "h0", "h1", false, true, "/r", None).unwrap();
    let names: Vec<&str> = o.branches.iter().map(|b| b.branch.as_str()).collect();
    assert_eq!(names, vec!["second", "first", "third"]);
    assert_eq!(o.branches[0].status, Status::Merged);
    assert_eq!(o.branches[1].status, Status::AlreadyMerged);
    assert!(matches!(o.branches[2].status, Status::Skipped(_)));
    assert_eq!(o.ending, Ending::Advanced);
    assert_eq!(o.base, "main");

    let still = train("main", "/r", &[candidate("x", vec![Step::Landed(false)])], "h0", "h0", true, false, "/r", None);
    assert_eq!(still.unwrap().ending, Ending::Unchanged);

    let nowhere = train("main", "/r", &[], "h0", "h1", true, false, "/r", None);
    assert!(reason(nowhere.unwrap_err()).starts_with("/r has no origin to push to"));

    let accepted = Pushed::from_output(&Output { status: 0, stdout: String::new(), stderr: String::new() });
    let pushed = train("main", "/r", &[], "h0", "h1", true, true, "/r", Some(&accepted)).unwrap();
    assert_eq!(pushed.ending, Ending::AdvancedAndPushed);

    let refused = Pushed::from_output(&Output { status: 1, stdout: "rejected\n".to_owned(), stderr: String::new() });
    match train("main", "/r", &[], "h0", "h1", true, true, "/r", Some(&refused)) {
        Err(Error::PushRejected { reason }) => {
            assert_eq!(reason, "the push of \"main\" was rejected by the merge path: rejected")
        }
        other => panic!("expected a rejection, got {other:?}"),
    }
}
