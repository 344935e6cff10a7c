use onevcs::branch::{
    diverged, locate, nowhere, prepare, Found, Held, Holds, Landing, Located, Reconciled,
    Reconciliation, Verb,
};
use onevcs::error::Error;
use onevcs::branch::plan_run;
use onevcs::rules::{Approvals, MergePolicy, Policy};

fn held(checkout: &str, tip: &str, holds: Holds) -> Held {
    Held { checkout: checkout.to_owned(), tip: tip.to_owned(), holds }
}

fn found(valid: bool, recorded: Option<&str>, stack_tip: Option<&str>, root_carries: bool) -> Found {
    Found {
        branch_valid: valid,
        base: "main".to_owned(),
        source: "/src".to_owned(),
        recorded: recorded.map(str::to_owned),
        stack_tip: stack_tip.map(str::to_owned),
        root_carries,
        observed: None,
        hosted: None,
    }
}

#[test]
fn each_verb_names_itself_and_runs_apart() {
    assert_eq!(Verb::Recover.name(), "recover");
    assert_eq!(Verb::PublishBranch.command("b x", "/r"), "onevcs publish-branch 'b x' --repo /r");
    assert_ne!(Verb::Recover.runs(), Verb::PublishBranch.runs());
    assert_eq!(Verb::all(), [Verb::Recover, Verb::PublishBranch]);
}

#[test]
fn a_landing_names_the_commands_that_advance_it() {
    let landing = Landing {
        verb: Verb::PublishBranch,
        repo_argument: "/r".to_owned(),
        rules_file: "/rules.yml".to_owned(),
        effective: MergePolicy::ChangeOpen,
        source: "/src".to_owned(),
        clone: "/clone".to_owned(),
        worktree: "/wt".to_owned(),
        run_root: "/run".to_owned(),
        branch: "topic".to_owned(),
        change_base: "main".to_owned(),
        compared_change_base: "origin/main".to_owned(),
        observed: None,
        stack_replay: None,
    };
    assert_eq!(landing.command(), "onevcs publish-branch topic --repo /r");
    assert_eq!(landing.rules_check(), "onevcs rules check /r");
    assert_eq!(landing.command_for(Verb::Recover), "onevcs recover topic --repo /r");
    let refusal = landing.unreadable_prefix("Other");
    assert!(refusal.starts_with("branch \"topic\" carries provenance under the trailer prefix \"Other\""));
    assert!(refusal.contains("`onevcs rules check /r`, then land it with `onevcs recover topic --repo /r`"));
}

#[test]
fn a_branch_lands_on_its_recorded_base_or_the_root() {
    let settled = prepare(Verb::Recover, "/r", "topic", "Onevcs-Base", &found(true, None, None, false)).unwrap();
    assert_eq!((settled.change_base.as_str(), settled.stack_replay), ("main", None));
    let stacked = prepare(Verb::Recover, "/r", "topic", "Onevcs-Base", &found(true, Some("below"), Some("t1"), false)).unwrap();
    assert_eq!(stacked.change_base, "below");
    let carried = prepare(Verb::Recover, "/r", "topic", "Onevcs-Base", &found(true, Some("below"), Some("t1"), true)).unwrap();
    assert_eq!((carried.change_base.as_str(), carried.stack_replay.as_deref()), ("main", Some("t1")));
    match prepare(Verb::Recover, "/r", "bad..name", "Onevcs-Base", &found(false, None, None, false)) {
        Err(Error::Invalid { reason }) => assert!(reason.starts_with("\"bad..name\" is not a valid branch name")),
        other => panic!("expected a refusal, got {other:?}"),
    }
    match prepare(Verb::Recover, "/r", "topic", "Onevcs-Base", &found(true, Some("gone"), None, false)) {
        Err(Error::Invalid { reason }) => {
            assert!(reason.starts_with("branch \"topic\" records the base it was stacked on as \"gone\""))
        }
        other => panic!("expected a refusal, got {other:?}"),
    }
    let mut unleased = found(true, Some("below"), Some("t1"), true);
    unleased.hosted = Some("h1".to_owned());
    assert!(matches!(
        prepare(Verb::Recover, "/r", "topic", "Onevcs-Base", &unleased),
        Err(Error::SyncConflict { .. })
    ));
}

#[test]
fn a_search_chooses_the_copy_that_carries_the_rest() {
    assert_eq!(locate(&[], &[]), Located::Nowhere);
    let one = vec![held("/a", "t1", Holds::Work)];
    assert_eq!(locate(&one, &[vec![true]]), Located::Chosen(0));
    let two = vec![held("/a", "t1", Holds::Work), held("/b", "t2", Holds::Work)];
    assert_eq!(locate(&two, &[vec![true, false], vec![true, true]]), Located::Chosen(1));
    assert_eq!(locate(&two, &[vec![true, false], vec![false, true]]), Located::Diverged(1));
    let spent = vec![held("/a", "t1", Holds::WhatTheBaseHas), held("/b", "t2", Holds::WhatTheBaseHas)];
    assert_eq!(locate(&spent, &[vec![true, false], vec![false, true]]), Located::Chosen(0));
    assert_eq!(two[1].describe(), "/b at t2");
    assert_eq!(spent[0].describe(), "/a at t1 (already in the base)");
    match nowhere("github.com/o/n", "topic", &["/a".to_owned(), "/b".to_owned()]) {
        Error::Invalid { reason } => assert_eq!(
            reason,
            "branch \"topic\" is in none of the checkouts of identity \"github.com/o/n\": /a, /b. `onevcs recoverable` lists every preserved branch and the checkout it is in"
        ),
        other => panic!("expected a refusal, got {other:?}"),
    }
}

fn a_landing() -> Landing {
    Landing {
        verb: Verb::Recover,
        repo_argument: "/r".to_owned(),
        rules_file: "/rules.yml".to_owned(),
        effective: MergePolicy::ChangeOpen,
        source: "/src".to_owned(),
        clone: "/clone".to_owned(),
        worktree: "/wt".to_owned(),
        run_root: "/run".to_owned(),
        branch: "topic".to_owned(),
        change_base: "main".to_owned(),
        compared_change_base: "origin/main".to_owned(),
        observed: None,
        stack_replay: None,
    }
}

fn conflict_reason(error: Error) -> String {
    match error {
        Error::SyncConflict { reason } => reason,
        other => panic!("expected a sync conflict, got {other:?}"),
    }
}

#[test]
fn a_settled_sync_goes_on_and_a_conflict_names_its_resolution() {
    let landing = a_landing();
    let (event, settled) = landing.sync_change_base(&Reconciled::Settled);
    assert!(event.is_none() && settled.is_ok());
    let (event, conflicted) = landing.sync_change_base(&Reconciled::Conflicted(Reconciliation::Merge));
    let event = event.expect("a conflict is reported as an event");
    assert_eq!(event.kind, onevcs::event::EventKind::SyncConflict);
    assert_eq!(
        event.fields,
        vec![("branch".to_owned(), "topic".to_owned()), ("base".to_owned(), landing.change_base.clone())]
    );
    let merged = conflict_reason(conflicted.unwrap_err());
    assert_eq!(
        merged,
        "origin/main conflicts with \"topic\", and re-running will conflict again: this verb merges origin/main into the branch and nothing about either has changed. The branch is retained in /src — resolve the conflict on it there, by merging origin/main into it and committing the resolution, and then land it with `onevcs recover topic --repo /r`, which is what publishes it"
    );
    let replayed = conflict_reason(
        landing
            .sync_change_base(&Reconciled::Conflicted(Reconciliation::Replay { from: "abc123".to_owned() }))
            .1
            .unwrap_err(),
    );
    assert_eq!(
        replayed,
        "origin/main conflicts with \"topic\", and re-running will conflict again: origin/main already carries what \"topic\" was stacked on, so this verb replays only its own commits onto origin/main and nothing about either has changed. The branch is retained in /src — resolve the conflict on it there, by replaying it with `git rebase --onto origin/main abc123 topic` and committing the resolution, and then land it with `onevcs recover topic --repo /r`, which is what publishes it"
    );
}

#[test]
fn diverged_copies_are_refused_with_the_fetch_that_reconciles_them() {
    let copies = vec![held("/a", "111", Holds::Work), held("/b", "222", Holds::WhatTheBaseHas)];
    let refusal = diverged("topic", "acme", "re-run it", &copies, &copies[0], &copies[1], "They differ somehow");
    match refusal {
        Error::Invalid { reason } => assert_eq!(
            reason,
            "branch \"topic\" is in 2 checkouts of identity \"acme\", and no copy of it carries the rest, so nothing here can tell which copy is the work and taking one would discard the other: /a at 111, /b at 222 (already in the base). They differ somehow. Reconcile them in one checkout — `git -C /a fetch /b topic` brings /b's copy into /a as FETCH_HEAD, `git -C /a diff --stat 111 222` then shows what the two differ by, and merging or rebasing onto the one that is there keeps both — or delete the copy that is not the work, and then re-run it"
        ),
        other => panic!("expected a refusal, got {other:?}"),
    }
}

#[test]
fn a_run_is_refused_before_anything_is_made_for_it() {
    let resolved = Policy { publication: MergePolicy::ChangeOpen, approvals: Approvals::Required };
    assert!(plan_run(Verb::Recover, "bad..name", false, &resolved, None, "/w", "u").is_err());
    assert!(plan_run(Verb::Recover, "topic", true, &resolved, Some(MergePolicy::LocalDirect), "/w", "u").is_err());
    let plan = plan_run(Verb::PublishBranch, "topic", true, &resolved, None, "/w", "u").unwrap();
    assert_eq!(plan.effective, MergePolicy::ChangeOpen);
    assert_eq!(plan.run_root, "/w/publications/topic-u");
    assert_eq!(plan.clone, "/w/publications/topic-u/clone");
    assert_eq!(plan.worktree, "/w/publications/topic-u/worktree");
}
