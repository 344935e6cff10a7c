use onevcs::cli::{ImportArgs, IntegrateArgs, PublishBranchArgs, RecoverArgs};
use onevcs::error::Error;
use onevcs::ops::{
    render_listing, required_checks_line, CheckoutAudit, ProtectionSource, RegisteredCheckout,
    RegisteredRepository,
    describe_match, policy_lines, registered_identities, repositories, required_checks,
    rules_check, spell_approvals, stream_token, sync_branch, IntegrateRequest, MergePathCoverage,
    RegistryCheckout, RegistryIdentity, RequiredChecks, RequiredChecksAnswer, ResolvedPolicy,
    Synced,
};
use onevcs::policy::{Matched, Resolved};
use onevcs::rules::{Approvals, MergePolicy, Policy, RuleMatch};

fn registry() -> (Vec<RegistryIdentity>, Vec<RegistryCheckout>) {
    (
        vec![
            RegistryIdentity { key: "github.com/o/a".to_owned(), gate: "make".to_owned() },
            RegistryIdentity { key: "/srv/b".to_owned(), gate: "true".to_owned() },
        ],
        vec![
            RegistryCheckout { alias: "a1".to_owned(), identity: "github.com/o/a".to_owned(), path: "/a1".to_owned() },
            RegistryCheckout { alias: "b1".to_owned(), identity: "/srv/b".to_owned(), path: "/b1".to_owned() },
            RegistryCheckout { alias: "a2".to_owned(), identity: "github.com/o/a".to_owned(), path: "/a2".to_owned() },
        ],
    )
}

fn resolved(matched: Option<Matched>) -> Resolved {
    Resolved {
        policy: Policy { publication: MergePolicy::ChangeAuto, approvals: Approvals::Required },
        source: "/rules.yml".to_owned(),
        matched,
        publication_from: "rule 2".to_owned(),
        approvals_from: "the default".to_owned(),
    }
}

#[test]
fn the_listing_is_the_registry_in_order() {
    let (identities, checkouts) = registry();
    let listed = repositories(&identities, &checkouts);
    assert_eq!(listed.len(), 2);
    assert_eq!(listed[0].identity, "github.com/o/a");
    assert_eq!(listed[0].gate, "make");
    let aliases: Vec<&str> = listed[0].checkouts.iter().map(|c| c.alias.as_str()).collect();
    assert_eq!(aliases, vec!["a1", "a2"]);
    assert_eq!(listed[1].checkouts[0].path, "/b1");
    assert!(listed.iter().all(|r| r.required_checks.is_none()));
    let keys = registered_identities(&identities, &checkouts);
    let rows: Vec<String> = listed.iter().map(|r| r.identity.clone()).collect();
    assert_eq!(keys, rows);
}

#[test]
fn required_checks_are_asked_only_of_a_hosted_identity() {
    let checks = RequiredChecks { checks: vec!["ci".to_owned()], unconsulted: Vec::new() };
    assert_eq!(
        required_checks("/srv/b", Ok(("main".to_owned(), checks.clone()))),
        RequiredChecksAnswer::NotHosted
    );
    assert_eq!(
        required_checks("github.com/o/a", Ok(("main".to_owned(), checks.clone()))),
        RequiredChecksAnswer::Answered { base: "main".to_owned(), checks }
    );
    assert_eq!(
        required_checks("github.com/o/a", Err("refused".to_owned())),
        RequiredChecksAnswer::Unreadable { reason: "refused".to_owned() }
    );
}

#[test]
fn a_policy_is_printed_with_what_decided_each_half() {
    let policy = ResolvedPolicy::of(&resolved(None));
    assert_eq!(policy.publication, MergePolicy::ChangeAuto);
    assert_eq!(policy.approvals_from, "the default");
    let (first, second) = policy_lines("  ", &policy);
    assert_eq!(first, "  publication: change-auto (from rule 2)");
    assert_eq!(second, "  approvals: required (from the default)");
    assert_eq!(spell_approvals(Approvals::NotRequired), "none");
    assert_eq!(MergePathCoverage::Uncovered.describe(), "none");
    assert_eq!(MergePathCoverage::Covered { by: "pre-push".to_owned() }.describe(), "pre-push");
}

#[test]
fn a_rules_check_reports_the_rule_that_decided() {
    let criteria = RuleMatch {
        host: Some("github.com".to_owned()),
        owner: None,
        name: Some("a*".to_owned()),
        path: None,
    };
    assert_eq!(describe_match(&criteria), "{host: github.com, name: a*}");
    assert_eq!(
        describe_match(&RuleMatch { host: None, owner: None, name: None, path: None }),
        "{}"
    );
    let checked = rules_check(
        "github.com/o/a",
        "/a1",
        &resolved(Some(Matched { index: 2, criteria: criteria.clone() })),
        "Onevcs",
        false,
    );
    assert_eq!(checked.matched.as_ref().map(|m| m.index), Some(2));
    let lines = checked.render("a1");
    assert_eq!(
        lines,
        vec![
            "repo: a1",
            "identity: github.com/o/a",
            "checkout: /a1",
            "rules: /rules.yml",
            "matched: rule 2 {host: github.com, name: a*}",
            "publication: change-auto (from rule 2)",
            "approvals: required (from the default)",
            "trailer_prefix: Onevcs (from the default)",
        ]
    );
    let unmatched = rules_check("x", "/x", &resolved(None), "P", true).render("x");
    assert_eq!(unmatched[4], "matched: no rule; the default applies");
    assert_eq!(unmatched[7], "trailer_prefix: P (from the rules file)");
}

#[test]
fn a_sync_moves_only_the_branch_checked_out() {
    assert_eq!(sync_branch("/c", Some("main"), true, "dev", "main").unwrap(), "main");
    assert_eq!(sync_branch("/c", None, true, "dev", "dev").unwrap(), "dev");
    match sync_branch("/c", None, true, "dev", "main") {
        Err(Error::Invalid { reason }) => assert_eq!(
            reason,
            "/c does not have \"dev\" checked out; sync only ever fast-forwards the branch a checkout is already on"
        ),
        other => panic!("expected a refusal, got {other:?}"),
    }
    match sync_branch("/c", Some("a..b"), false, "dev", "a..b") {
        Err(Error::Invalid { reason }) => {
            assert_eq!(reason, "\"a..b\" is not a valid branch name: it is not a valid branch name")
        }
        other => panic!("expected a refusal, got {other:?}"),
    }
    let synced = Synced {
        identity: "github.com/o/a".to_owned(),
        branch: "main".to_owned(),
        checkout: "/a1".to_owned(),
        before: "aaa".to_owned(),
        after: "bbb".to_owned(),
    };
    assert!(synced.moved());
    assert_eq!(synced.report(), "github.com/o/a: main fast-forwarded to origin/main at bbb, in /a1");
    let level = Synced { after: "aaa".to_owned(), ..synced };
    assert!(!level.moved());
    assert_eq!(level.report(), "github.com/o/a: main was already level with origin/main at aaa, in /a1");
}

#[test]
fn a_stream_token_names_the_verb_and_the_flattened_subject() {
    assert_eq!(stream_token("publish-branch", "topic"), "publish-branch-topic");
    assert!(stream_token("recover", "a/b").starts_with("recover-"));
    assert!(!stream_token("recover", "a/b")["recover-".len()..].contains('/'));
}

#[test]
fn arguments_become_the_requests_they_ask_for() {
    let import = ImportArgs {
        branch: "topic".to_owned(),
        repo: "/r".to_owned(),
        from: Some("origin".to_owned()),
        under: None,
    }
    .request();
    assert_eq!((import.repo.as_str(), import.branch.as_str()), ("/r", "topic"));
    assert_eq!(import.from.as_deref(), Some("origin"));
    let train = IntegrateArgs { branches: vec!["a".to_owned()], push: true }.request();
    assert_eq!(train, IntegrateRequest { branches: vec!["a".to_owned()], push: true });
    assert_eq!(IntegrateRequest::default(), IntegrateRequest { branches: Vec::new(), push: false });
    let publish = PublishBranchArgs {
        branch: "b".to_owned(),
        repo: "/r".to_owned(),
        title: Some("T".to_owned()),
        policy: Some(MergePolicy::ChangeOpen),
    }
    .request();
    assert_eq!(publish.body, None);
    assert_eq!(publish.policy, Some(MergePolicy::ChangeOpen));
    let recover = RecoverArgs { branch: "b".to_owned(), repo: "/r".to_owned(), title: None }.request();
    assert_eq!(recover.title, None);
}

#[test]
fn the_required_checks_line_says_which_sources_answered() {
    let answered = |checks: Vec<&str>, unconsulted: Vec<(ProtectionSource, &str)>| {
        RequiredChecksAnswer::Answered {
            base: "main".to_owned(),
            checks: RequiredChecks {
                checks: checks.into_iter().map(str::to_owned).collect(),
                unconsulted: unconsulted.into_iter().map(|(s, w)| (s, w.to_owned())).collect(),
            },
        }
    };
    assert_eq!(
        required_checks_line("/srv/b", &RequiredChecksAnswer::NotHosted),
        "none: \"/srv/b\" is not a github.com repository, so no host answers for it"
    );
    assert_eq!(
        required_checks_line("k", &RequiredChecksAnswer::Unreadable { reason: "denied".to_owned() }),
        "unreadable — denied"
    );
    assert_eq!(
        required_checks_line("k", &answered(vec![], vec![])),
        "none required: neither the repository's rulesets nor its branch protection names one for main"
    );
    assert_eq!(
        required_checks_line("k", &answered(vec!["ci", "lint"], vec![])),
        "ci, lint (required by the repository's rulesets and branch protection for main)"
    );
    assert_eq!(
        required_checks_line("k", &answered(vec![], vec![(ProtectionSource::Rulesets, "403")])),
        "unknown — branch protection name none for main, and the repository's rulesets was not consulted: 403"
    );
    assert_eq!(
        required_checks_line("k", &answered(vec!["ci"], vec![(ProtectionSource::BranchProtection, "404")])),
        "ci (required by the repository's rulesets for main; incomplete — branch protection was not consulted: 404)"
    );
    assert!(!RequiredChecks { checks: vec![], unconsulted: vec![(ProtectionSource::Rulesets, String::new())] }.complete());
}

#[test]
fn the_listing_prints_each_identity_with_its_checkouts() {
    assert_eq!(render_listing(&[]), vec!["no repositories registered"]);
    let policy = ResolvedPolicy {
        publication: MergePolicy::LocalDirect,
        publication_from: "rule 1".to_owned(),
        approvals: Approvals::NotRequired,
        approvals_from: "the default".to_owned(),
    };
    let listed = vec![RegisteredRepository {
        identity: "github.com/o/a".to_owned(),
        gate: "make".to_owned(),
        checkouts: vec![
            RegisteredCheckout { alias: "a1".to_owned(), path: "/a1".to_owned(), audit: None },
            RegisteredCheckout {
                alias: "a2".to_owned(),
                path: "/a2".to_owned(),
                audit: Some(CheckoutAudit { policy, coverage: MergePathCoverage::Uncovered }),
            },
        ],
        required_checks: Some(RequiredChecksAnswer::Unreadable { reason: "x".to_owned() }),
    }];
    assert_eq!(
        render_listing(&listed),
        vec![
            "github.com/o/a\tmake",
            "  required checks: unreadable — x",
            "  a1\t/a1",
            "  a2\t/a2",
            "    publication: local-direct (from rule 1)",
            "    approvals: none (from the default)",
            "    merge-path coverage: none",
        ]
    );
}
