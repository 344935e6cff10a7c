use onevcs::error::Error;
use onevcs::pool::{
    describe_slot_outcome, maintain_exit_code, IdentityMaintained, IdentityOutcome,
    MaintainReport, SlotMaintained, SlotOutcome,
};
use onevcs::pool::{
    broken_candidates, check_record, count, exhausted, fallback, idle_candidates, keeps,
    next_free, pool_prune, pool_status, retained, shed_order, surplus, survey_slot,
    workspace_capacity, in_number_order, slot_number, Bound, Claim, Fallback, Kind, MaintenanceOutcome, OpenSession,
    Resolved, SlotFacts, SlotRecord, SlotState, Surveyed,
};

fn slot(number: u32, lender: Option<&str>, state: SlotState) -> Surveyed {
    Surveyed {
        number,
        dir: format!("/pool/{number}"),
        lender: lender.map(str::to_owned),
        last_maintained: None,
        last_outcome: None,
        state,
    }
}

fn open(token: &str, run_root: &str, slot: Option<u32>) -> OpenSession {
    OpenSession {
        token: token.to_owned(),
        branch: "topic".to_owned(),
        worktree: format!("{run_root}/worktree"),
        run_root: run_root.to_owned(),
        execution_checkout: "/exec".to_owned(),
        slot,
        owner_pid: 42,
        liveness: "alive".to_owned(),
        placed: true,
    }
}

fn resolved(pool: u32, overflow: Bound, file_pool: u32) -> Resolved {
    Resolved {
        pool,
        pool_from: "the file".to_owned(),
        overflow,
        overflow_from: "the default".to_owned(),
        file_pool,
    }
}

fn record(number: u32) -> SlotRecord {
    SlotRecord {
        version: 1,
        number,
        identity: "github.com/o/n".to_owned(),
        execution_checkout: "/exec".to_owned(),
        maintaining: None,
        last_maintained: Some("2024-01-01T00:00:00Z".to_owned()),
        last_outcome: Some(MaintenanceOutcome::Succeeded),
    }
}

fn facts(number: u32, record: Result<SlotRecord, String>) -> SlotFacts {
    SlotFacts {
        number,
        dir: format!("/pool/{number}"),
        record_path: format!("/pool/{number}/slot.json"),
        record,
        lender_absolute: true,
        clone: format!("/pool/{number}/clone"),
        clone_is_repo: true,
        worktree: format!("/pool/{number}/worktree"),
        worktree_is_repo: true,
        claim_live: false,
    }
}

#[test]
fn a_bound_admits_below_its_limit_and_counts_its_headroom() {
    assert!(Bound::Bounded(2).admits(1));
    assert!(!Bound::Bounded(2).admits(2));
    assert!(Bound::Unlimited.admits(u32::MAX));
    assert_eq!(Bound::Bounded(2).headroom(5), Bound::Bounded(0));
    assert_eq!(Bound::Bounded(5).headroom(2), Bound::Bounded(3));
    assert_eq!(Bound::Unlimited.headroom(9), Bound::Unlimited);
    assert_eq!(Bound::Unlimited.describe(), "unlimited");
    assert_eq!(Bound::Bounded(12).describe(), "12");
}

#[test]
fn a_record_that_disagrees_with_its_directory_is_refused() {
    assert!(check_record("/p", record(1), 1, "github.com/o/n", true).is_ok());
    let mut other = record(1);
    other.version = 2;
    assert_eq!(
        check_record("/p", other, 1, "github.com/o/n", true).unwrap_err(),
        "its record at /p declares version 2; this build reads version 1"
    );
    assert_eq!(
        check_record("/p", record(3), 1, "github.com/o/n", true).unwrap_err(),
        "its record at /p is for slot 3, not for slot 1"
    );
    assert_eq!(
        check_record("/p", record(1), 1, "github.com/x/y", true).unwrap_err(),
        "its record at /p belongs to \"github.com/o/n\", not to \"github.com/x/y\""
    );
    assert_eq!(
        check_record("/p", record(1), 1, "github.com/o/n", false).unwrap_err(),
        "its record at /p names an execution checkout at /exec, which is not an absolute path"
    );
}

#[test]
fn a_slot_state_is_decided_in_order() {
    let (s, clear) = survey_slot(facts(1, Err("unreadable".to_owned())), "github.com/o/n", &[]);
    assert_eq!(s.state, SlotState::Broken { reason: "unreadable".to_owned() });
    assert!(s.lender.is_none() && !clear);

    let mut no_clone = facts(1, Ok(record(1)));
    no_clone.clone_is_repo = false;
    let (s, _) = survey_slot(no_clone, "github.com/o/n", &[]);
    assert_eq!(
        s.state,
        SlotState::Broken { reason: "its clone at /pool/1/clone is missing or not a repository".to_owned() }
    );
    assert_eq!(s.lender.as_deref(), Some("/exec"));

    let mut no_tree = facts(1, Ok(record(1)));
    no_tree.worktree_is_repo = false;
    let (s, _) = survey_slot(no_tree, "github.com/o/n", &[]);
    assert_eq!(
        s.state,
        SlotState::Broken { reason: "its worktree at /pool/1/worktree is missing or not a repository".to_owned() }
    );

    let holders = vec![open("t9", "/runs/x", None), open("t1", "/pool/1", Some(1))];
    let (s, _) = survey_slot(facts(1, Ok(record(1))), "github.com/o/n", &holders);
    assert_eq!(s.state, SlotState::InUse { session: "t1".to_owned() });

    let mut claimed = record(1);
    claimed.maintaining = Some(Claim { pid: 77, since: "now".to_owned() });
    let mut live = facts(1, Ok(claimed.clone()));
    live.claim_live = true;
    let (s, clear) = survey_slot(live, "github.com/o/n", &[]);
    assert_eq!(s.state, SlotState::Maintaining { pid: 77, since: "now".to_owned() });
    assert!(!clear);

    let (s, clear) = survey_slot(facts(1, Ok(claimed)), "github.com/o/n", &[]);
    assert_eq!(s.state, SlotState::Idle);
    assert!(clear, "a void claim is cleared");

    let (s, clear) = survey_slot(facts(1, Ok(record(1))), "github.com/o/n", &[]);
    assert_eq!(s.state, SlotState::Idle);
    assert!(!clear);
    assert_eq!(s.last_outcome, Some(MaintenanceOutcome::Succeeded));
}

#[test]
fn capacity_counts_slots_and_headroom_after_the_shed() {
    let slots = vec![
        slot(1, Some("/exec"), SlotState::Idle),
        slot(2, Some("/exec"), SlotState::InUse { session: "t".to_owned() }),
        slot(3, Some("/other"), SlotState::Broken { reason: "r".to_owned() }),
        slot(4, Some("/exec"), SlotState::Maintaining { pid: 1, since: "s".to_owned() }),
    ];
    let sessions = vec![open("t", "/pool/2", Some(2)), open("u", "/runs/u", None)];
    let c = workspace_capacity("id", "/exec", &resolved(4, Bound::Bounded(3), 4), &slots, &sessions, None);
    assert_eq!((c.slots, c.idle, c.in_use, c.maintaining), (4, 1, 1, 1));
    assert_eq!(c.overflow_in_use, 1);
    // takeable 2 (idle + broken), nothing shed, nothing to cut, room 2.
    assert_eq!(c.admits, Bound::Bounded(4));
    assert!(c.admitted);
    assert_eq!(c.identity, "id");

    // A pool of one over four slots sheds both takeable ones.
    let c = workspace_capacity("id", "/exec", &resolved(1, Bound::Bounded(1), 1), &slots, &sessions, None);
    assert_eq!(c.admits, Bound::Bounded(0));
    assert!(c.admitted, "an idle slot of this lender is there before the shed");

    // Taking no slots leaves the overflow alone to decide.
    let c = workspace_capacity("id", "/exec", &resolved(0, Bound::Unlimited, 0), &slots, &sessions, None);
    assert_eq!(c.admits, Bound::Unlimited);
    assert!(c.admitted);
    let c = workspace_capacity("id", "/exec", &resolved(0, Bound::Bounded(1), 0), &slots, &sessions, None);
    assert!(!c.admitted);

    // A pinned branch an open session already holds resumes in place.
    let c = workspace_capacity("id", "/exec", &resolved(0, Bound::Bounded(1), 0), &slots, &sessions, Some("topic"));
    assert!(c.admitted);
    // Whichever checkout it cloned from: holding the branch is what resumes.
    let c = workspace_capacity("id", "/elsewhere", &resolved(0, Bound::Bounded(1), 0), &slots, &sessions, Some("topic"));
    assert!(c.admitted);
    let c = workspace_capacity("id", "/exec", &resolved(0, Bound::Bounded(1), 0), &slots, &sessions, Some("other"));
    assert!(!c.admitted);
}

#[test]
fn every_slot_is_counted_as_exactly_one_state() {
    let slots = vec![
        slot(1, None, SlotState::Idle),
        slot(2, None, SlotState::Broken { reason: "r".to_owned() }),
        slot(3, None, SlotState::InUse { session: "t".to_owned() }),
    ];
    let total = count(&slots, Kind::Idle) + count(&slots, Kind::InUse)
        + count(&slots, Kind::Maintaining) + count(&slots, Kind::Broken);
    assert_eq!(total as usize, slots.len());
    assert_eq!(count(&slots, Kind::Takeable), 2);
}

#[test]
fn a_slot_is_kept_for_whoever_holds_it_or_the_branches_it_retains() {
    assert_eq!(
        keeps(&SlotState::InUse { session: "t1".to_owned() }, &[], None).unwrap(),
        "session t1 is working in it"
    );
    assert_eq!(
        keeps(&SlotState::Maintaining { pid: 7, since: "then".to_owned() }, &[], None).unwrap(),
        "a maintenance run (pid 7) has claimed it since then"
    );
    assert_eq!(keeps(&SlotState::Idle, &[], Some("/exec")), None);
    assert_eq!(
        keeps(&SlotState::Broken { reason: "gone".to_owned() }, &[], None).unwrap(),
        "it is broken (gone), and only an idle slot is removed; the next session that would take \
         it recreates it in place"
    );
    assert_eq!(
        keeps(&SlotState::Idle, &["wip".to_owned()], Some("/exec")).unwrap(),
        "its clone retains \"wip\" — a branch its lender /exec would not take, and removing the \
         slot is what would make it unreachable"
    );
    assert_eq!(
        keeps(&SlotState::Idle, &["a".to_owned(), "b".to_owned()], None).unwrap(),
        "its clone retains \"a\", \"b\" — branches its lender (unknown) would not take, and \
         removing the slot is what would make them unreachable"
    );
    assert_eq!(
        retained(&["a".to_owned(), "b".to_owned(), "c".to_owned()], &[true, false, false]),
        vec!["b".to_owned(), "c".to_owned()]
    );
}

#[test]
fn placement_tries_slots_in_the_ruled_order() {
    let slots = vec![
        slot(1, Some("/exec"), SlotState::Idle),
        slot(2, Some("/other"), SlotState::Idle),
        slot(3, Some("/exec"), SlotState::Idle),
        slot(4, None, SlotState::Broken { reason: "r".to_owned() }),
        slot(6, Some("/other"), SlotState::Broken { reason: "r".to_owned() }),
    ];
    assert_eq!(idle_candidates(&slots, "/exec", None), vec![1, 3]);
    assert_eq!(idle_candidates(&slots, "/exec", Some(3)), vec![3, 1]);
    assert_eq!(idle_candidates(&slots, "/exec", Some(2)), vec![1, 3]);
    assert_eq!(broken_candidates(&slots, "/exec"), vec![4]);
    assert_eq!(next_free(&slots, 1), Some(5));
    assert_eq!(next_free(&slots, 6), Some(7));
    assert_eq!(surplus(&slots, 2), 3);
    assert_eq!(shed_order(&slots, &[false, false, true, false, false]), vec![6, 4, 2, 1]);
}

#[test]
fn a_spent_pool_cuts_overflows_or_refuses_naming_every_holder() {
    let slots = vec![
        slot(1, Some("/exec"), SlotState::InUse { session: "t1".to_owned() }),
        slot(2, Some("/exec"), SlotState::Maintaining { pid: 9, since: "s".to_owned() }),
    ];
    let sessions = vec![open("t1", "/pool/1", Some(1)), open("t2", "/runs/t2", None)];
    assert!(matches!(
        fallback("id", &resolved(3, Bound::Bounded(0), 3), &slots, &sessions, "/w.yml"),
        Fallback::Cut
    ));
    assert!(matches!(
        fallback("id", &resolved(2, Bound::Bounded(2), 2), &slots, &sessions, "/w.yml"),
        Fallback::RunRoot
    ));
    match fallback("id", &resolved(2, Bound::Bounded(1), 2), &slots, &sessions, "/w.yml") {
        Fallback::Refused(Error::PoolExhausted { reason }) => assert_eq!(
            reason,
            "no session of id can be placed now: its pool is 2 (from the file) — 2 created, 0 idle, \
             1 in use, 1 maintaining — and its overflow is 1 (from the default) with 1 in use. Held \
             by: slot 1: session t1 on \"topic\" in /pool/1/worktree, opened by pid 42 (alive); \
             slot 2: a maintenance run, pid 9, since s; under runs/: session t2 on \"topic\" in \
             /runs/t2/worktree, opened by pid 42 (alive). Close a session, raise pool or overflow \
             for this identity in /w.yml, or open this one with `--overflow unlimited`"
        ),
        other => panic!("expected a refusal, got {other:?}"),
    }
    match exhausted("id", &resolved(0, Bound::Bounded(0), 0), &[], &[], "/w.yml") {
        Error::PoolExhausted { reason } => assert!(reason.contains(". Nothing holds it. ")),
        other => panic!("expected a refusal, got {other:?}"),
    }
}

#[test]
fn reports_list_slots_and_what_a_prune_did() {
    let slots = vec![
        slot(1, Some("/exec"), SlotState::Idle),
        slot(2, None, SlotState::Broken { reason: "r".to_owned() }),
        slot(3, Some("/exec"), SlotState::Idle),
    ];
    let c = workspace_capacity("id", "/exec", &resolved(3, Bound::Unlimited, 3), &slots, &[], None);
    let status = pool_status("id", "/exec", &resolved(3, Bound::Unlimited, 3), &slots, &[]);
    assert_eq!(status.capacity, c);
    assert_eq!((status.capacity.slots, status.capacity.idle), (3, 2));
    assert_eq!(status.slots.len(), 3);
    assert_eq!(status.slots[1].execution_checkout, "");
    assert_eq!(status.slots[0].path, "/pool/1");
    let report = pool_prune(
        &slots,
        &[vec![], vec![], vec![]],
        vec![Ok(()), Ok(()), Err("busy".to_owned())],
    );
    assert_eq!(report.removed, vec![1]);
    assert_eq!(
        report.kept,
        vec![
            (2, "it is broken (r), and only an idle slot is removed; the next session that would take it recreates it in place".to_owned()),
            (3, "busy".to_owned())
        ]
    );
    let holding = pool_prune(&slots, &[vec!["work".to_owned()], vec![], vec![]], vec![Ok(()), Ok(()), Ok(())]);
    assert_eq!(holding.removed, vec![3]);
    assert_eq!(holding.kept[0].0, 1);
    assert!(holding.kept[0].1.starts_with("its clone retains"));
}

#[test]
fn a_status_report_prints_the_capacity_then_every_slot() {
    let slots = vec![
        Surveyed {
            number: 1,
            dir: "/pool/1".to_owned(),
            lender: Some("/exec".to_owned()),
            last_maintained: Some("2024-01-01T00:00:00Z".to_owned()),
            last_outcome: Some(MaintenanceOutcome::Failed { exit: Some(2) }),
            state: SlotState::InUse { session: "t1".to_owned() },
        },
        slot(2, None, SlotState::Broken { reason: "gone".to_owned() }),
    ];
    let lines = pool_status("id", "/exec", &resolved(3, Bound::Unlimited, 3), &slots, &[]).render();
    assert_eq!(
        lines,
        vec![
            "identity: id",
            "pool: 3 (slots: 2 created, 0 idle, 1 in use, 0 maintaining)",
            "overflow: unlimited (0 in use)",
            "admits: unlimited",
            "slot 1: in use by t1",
            "  path: /pool/1",
            "  execution checkout: /exec",
            "  last maintained: 2024-01-01T00:00:00Z",
            "  last outcome: failed (exit 2)",
            "slot 2: broken: gone",
            "  path: /pool/2",
            "  execution checkout: ",
            "  last maintained: never",
            "  last outcome: none",
        ]
    );
}

#[test]
fn a_prune_report_prints_what_went_and_what_stayed() {
    let report = onevcs::pool::PruneReport { removed: vec![2], kept: vec![(1, "busy".to_owned())] };
    assert_eq!(report.render(), vec!["removed slot 2", "kept slot 1: busy"]);
    let empty = onevcs::pool::PruneReport { removed: vec![], kept: vec![] };
    assert_eq!(empty.render(), vec!["no slots"]);
}

#[test]
fn a_maintenance_pass_is_tallied_and_reported_per_identity() {
    let ran = |outcome, log: Option<&str>| SlotOutcome::Ran {
        outcome,
        duration_ms: 1500,
        log: log.map(str::to_owned),
    };
    assert_eq!(
        describe_slot_outcome(&ran(MaintenanceOutcome::Succeeded, Some("a-1"))),
        "ran: succeeded in 1500 ms, log: onevcs artifact cat a-1"
    );
    assert_eq!(
        describe_slot_outcome(&ran(MaintenanceOutcome::Failed { exit: None }, None)),
        "ran: failed (ended by a signal, or never started) in 1500 ms"
    );
    assert_eq!(
        describe_slot_outcome(&SlotOutcome::NotDue { last_maintained: "then".to_owned() }),
        "kept: not due, last maintained then"
    );
    let report = MaintainReport {
        identities: vec![
            IdentityMaintained {
                identity: "github.com/o/a".to_owned(),
                outcome: IdentityOutcome::Slots(vec![
                    SlotMaintained { number: 1, outcome: ran(MaintenanceOutcome::Succeeded, None) },
                    SlotMaintained { number: 2, outcome: ran(MaintenanceOutcome::TimedOut, None) },
                    SlotMaintained {
                        number: 3,
                        outcome: SlotOutcome::InUse { session: "t".to_owned() },
                    },
                ]),
            },
            IdentityMaintained { identity: "/srv/b".to_owned(), outcome: IdentityOutcome::NoSlots },
            IdentityMaintained {
                identity: "/srv/c".to_owned(),
                outcome: IdentityOutcome::Claimed { by_pid: 9 },
            },
        ],
    };
    let tally = report.tally();
    assert_eq!((tally.ran, tally.succeeded, tally.failed, tally.timed_out), (2, 1, 0, 1));
    assert!(!report.every_command_succeeded());
    assert_eq!(maintain_exit_code(&report), 1);
    assert_eq!(
        report.render(Some("1d")),
        vec![
            "onevcs pool maintain: ran 2 command(s) — 1 succeeded, 0 failed, 1 timed out — over 3 identity(ies), skipping slots maintained within 1d.",
            "github.com/o/a:",
            "  slot 1 — ran: succeeded in 1500 ms",
            "  slot 2 — ran: timed out in 1500 ms",
            "  slot 3 — kept: session t is working in it",
            "/srv/b — no slots",
            "/srv/c — claimed: another pool maintain (pid 9) is maintaining it right now",
        ]
    );
    let idle = MaintainReport { identities: vec![] };
    assert_eq!(maintain_exit_code(&idle), 0);
    assert_eq!(idle.render(None), vec!["onevcs pool maintain: ran 0 command(s) — 0 succeeded, 0 failed, 0 timed out — over 0 identity(ies)."]);
}

#[test]
fn only_a_positive_decimal_name_numbers_a_slot() {
    assert_eq!(slot_number("1"), Some(1));
    assert_eq!(slot_number("7"), Some(7));
    assert_eq!(slot_number("007"), None);
    assert_eq!(slot_number("+3"), None);
    assert_eq!(slot_number("4294967295"), Some(u32::MAX));
    assert_eq!(slot_number("4294967296"), None);
    assert_eq!(slot_number("0"), None);
    assert_eq!(slot_number(""), None);
    assert_eq!(slot_number("+"), None);
    assert_eq!(slot_number("-1"), None);
    assert_eq!(slot_number("2a"), None);
    assert_eq!(slot_number("notes.txt"), None);
}

#[test]
fn a_survey_lists_its_slots_lowest_number_first() {
    let read = vec![
        slot(3, None, SlotState::Idle),
        slot(1, Some("/a"), SlotState::Idle),
        slot(2, None, SlotState::Idle),
    ];
    let ordered = in_number_order(read);
    let numbers: Vec<u32> = ordered.iter().map(|s| s.number).collect();
    assert_eq!(numbers, vec![1, 2, 3]);
    assert_eq!(ordered[0].lender.as_deref(), Some("/a"));
}
