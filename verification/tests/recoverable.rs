use onevcs::host::Sha;
use onevcs::landed::{unlanded_above, Landed, LandingEvidence};
use onevcs::recoverable::{
    row_lines, scope_named, selection_named, widen, HeldBy, KeepReason, NetNegative, OnOrigin,
    PreservedBranch, Provenance, Recoverable, RecoverableReport, Retirement, RetirementClass,
    SupersededBy, WITHHELD,
};

fn row(landed: Landed) -> Recoverable {
    Recoverable {
        branch: PreservedBranch {
            branch: "topic".to_owned(),
            base: "main".to_owned(),
            provenance: Provenance::Complete,
        },
        identity: "github.com/o/r".to_owned(),
        checkout: "/w/r".to_owned(),
        publication: "/p/r".to_owned(),
        landed,
        held_by: None,
        net_negative: None,
        on_origin: None,
        stopped_because: "a hook refused it".to_owned(),
        recover_command: ["onevcs", "publish-branch", "topic", "--repo", "/p/r"]
            .iter()
            .map(|word| word.to_string())
            .collect(),
        retirement: None,
    }
}

fn retirement(class: RetirementClass, reason: Option<KeepReason>) -> Retirement {
    Retirement {
        class,
        reason,
        proof: Some("its tree matches main".to_owned()),
        verdict: "kept: it is the only copy".to_owned(),
        superseded_by: Some(SupersededBy {
            branch: "topic-2".to_owned(),
            landing: "fff".to_owned(),
            labels: "run=7".to_owned(),
        }),
        base: "main".to_owned(),
        differing_paths: vec!["a.rs".to_owned(), "b.rs".to_owned()],
    }
}

#[test]
fn an_unlanded_row_says_what_to_run() {
    assert_eq!(
        row_lines(&row(Landed::No)),
        vec![
            "topic  [github.com/o/r]  complete",
            "    Found in: /w/r",
            "    Stopped because: a hook refused it",
            "    Resume: onevcs publish-branch topic --repo /p/r",
        ]
    );
}

#[test]
fn a_landed_row_says_nothing_is_left_to_resume() {
    let landed = Landed::Yes { evidence: LandingEvidence::RecordedLanding { commit: Sha("abc".to_owned()) } };
    assert_eq!(
        row_lines(&row(landed)),
        vec![
            "topic  [github.com/o/r]  complete  — landed — a recorded landing",
            "    Found in: /w/r",
            "    Stopped because: a hook refused it",
            "    Landed: a recorded landing (abc) says this branch's work reached main. Nothing to resume — publishing it again would re-open a change request for work main already carries",
        ]
    );
}

#[test]
fn a_row_landed_in_part_names_the_landing_and_what_is_left() {
    let landed = Landed::InPart {
        evidence: LandingEvidence::Trailer { commit: Sha("abc".to_owned()) },
        unlanded: 2,
    };
    let lines = row_lines(&row(landed));
    assert_eq!(lines[0], "topic  [github.com/o/r]  complete  — landed in part — a landing trailer on the base");
    assert_eq!(
        lines[3],
        "    Landed in part: a landing trailer on the base (abc) says work of this branch reached main, and it has 2 commit(s) since that the landing does not carry. Those are what publishing it now would land"
    );
    assert_eq!(lines[4], "    Resume: onevcs publish-branch topic --repo /p/r");
    assert_eq!(lines.len(), 5);
}

#[test]
fn an_undecided_row_sends_the_reader_to_the_diff_first() {
    let lines = row_lines(&row(Landed::Unknown));
    assert_eq!(lines[0], "topic  [github.com/o/r]  complete  — may have landed");
    assert_eq!(
        lines[3],
        "    Not decided: nothing records that this branch's work reached main — no landing, no change request's number in main's history, and no landing trailer — and comparing content settles nothing here, so main may already carry this work. Read it with `git -C /w/r diff --stat main...topic`; if it really has not landed, `onevcs publish-branch topic --repo /p/r` lands it"
    );
    assert_eq!(lines.len(), 4);
}

#[test]
fn a_held_net_negative_row_on_the_origin_is_not_ready() {
    let mut held = row(Landed::No);
    held.branch.provenance = Provenance::IncompleteStep;
    held.held_by = Some(HeldBy {
        token: "s-1".to_owned(),
        because: "its process is alive".to_owned(),
        worktree: "/wt".to_owned(),
    });
    held.net_negative = Some(NetNegative { added: 1, removed: 9 });
    held.on_origin = Some(OnOrigin { remote: "origin".to_owned(), commit: "def".to_owned() });
    assert_eq!(
        row_lines(&held),
        vec![
            "topic  [github.com/o/r]  incomplete step (provenance marker)  — held by a live session; net-negative: 1 added, 9 removed; on origin",
            "    Found in: /w/r",
            "    On origin: origin carries it at def, put there by `onevcs preserve` and published by nothing. The work survives this host going away; landing it is still the command below",
            "    Stopped because: a hook refused it",
            "    Net-negative: it removes 9 line(s) and adds 1 since it forked from main, so landing it unread would strip work. Read it first with `git -C /w/r diff --stat main...topic`",
            "    Not ready: session s-1 still holds this branch and its process is alive, so running `onevcs publish-branch topic --repo /p/r` now would publish a branch mid-flight. Its worktree is /wt; wait for it, or close it with `onevcs session close s-1`, and then run that command",
        ]
    );
}

#[test]
fn retirement_and_reclaim_lines_follow_the_class() {
    let mut retirable = row(Landed::No);
    retirable.retirement = Some(retirement(RetirementClass::Retirable, None));
    let lines = row_lines(&retirable);
    assert_eq!(
        lines[3],
        "    Retirable: it holds nothing beyond main (its tree matches main); `onevcs retire topic --repo /p/r` deletes it everywhere this host holds it"
    );
    assert_eq!(lines.len(), 5);

    let mut kept = row(Landed::No);
    kept.retirement = Some(retirement(RetirementClass::Keep, Some(KeepReason::Other)));
    assert_eq!(row_lines(&kept)[3], "    Kept: kept: it is the only copy");
    let mut unmerged = row(Landed::No);
    unmerged.retirement = Some(retirement(RetirementClass::Keep, Some(KeepReason::UnmergedUniqueCommits)));
    assert_eq!(row_lines(&unmerged).len(), 4);

    let mut superseded = row(Landed::No);
    superseded.retirement = Some(retirement(RetirementClass::SupersededWithChanges, None));
    let lines = row_lines(&superseded);
    assert_eq!(
        lines[3..].to_vec(),
        vec![
            "    Resume: onevcs publish-branch topic --repo /p/r",
            "    Reclaim: onevcs reclaim topic --repo /p/r",
            "      Superseded by: topic-2 (landed at fff)",
            "      Labels: run=7",
            "      Differs from main in: a.rs, b.rs",
        ]
    );
}

#[test]
fn the_report_names_its_scope_and_what_it_withholds() {
    let scoped = scope_named("github.com/o/r", "/p/r", Some("r"));
    assert_eq!(
        scoped,
        "github.com/o/r — the identity `--repo r` names, whose publication checkout is /p/r"
    );
    assert_eq!(
        scope_named("github.com/o/r", "/p/r", None),
        "github.com/o/r — the identity of /p/r, the registered checkout this was run in"
    );
    let empty = RecoverableReport {
        rows: Vec::new(),
        all: false,
        scoped: Some(scoped.clone()),
        narrowed: None,
        repo_named: true,
    };
    assert_eq!(
        empty.render(),
        vec![
            format!("No preserved unpublished branches in {scoped}. Every branch of it has reached its base or a remote."),
            WITHHELD.to_owned(),
            widen(true).to_owned(),
        ]
    );
    let everywhere = RecoverableReport { rows: Vec::new(), all: true, scoped: None, narrowed: None, repo_named: false };
    assert_eq!(
        everywhere.render(),
        vec!["No preserved branches. Every branch across the registered identities has reached its base or a remote."]
    );
    let listed = RecoverableReport {
        rows: vec![row(Landed::No)],
        all: false,
        scoped: None,
        narrowed: selection_named(&["s-1".to_owned()], &[]),
        repo_named: false,
    };
    let lines = listed.render();
    assert_eq!(lines[0], "1 preserved unpublished branch(es) across every registered identity:");
    assert_eq!(
        lines[1],
        "Only the preserved branches of the sessions `--session s-1` names are listed; nothing else here was looked at."
    );
    assert_eq!(lines[2], "topic  [github.com/o/r]  complete");
    assert_eq!(lines.last().unwrap(), WITHHELD);
    assert_eq!(lines.len(), 7);
    assert_eq!(
        listed.json_notes(),
        vec![
            format!("onevcs: {}", lines[1]),
            format!("onevcs: {WITHHELD}"),
        ]
    );
}

#[test]
fn a_selection_is_spelled_as_its_flags() {
    assert_eq!(selection_named(&[], &[]), None);
    assert_eq!(
        selection_named(&["a".to_owned()], &[("run".to_owned(), "7".to_owned())]).unwrap(),
        "Only the preserved branches of the sessions `--session a --label run=7` names are listed; nothing else here was looked at."
    );
}

#[test]
fn the_unlanded_suffix_stops_at_the_first_integrated_commit() {
    assert_eq!(unlanded_above(&[]), 0);
    assert_eq!(unlanded_above(&[true, false]), 0);
    assert_eq!(unlanded_above(&[false, false, true, false]), 2);
    assert_eq!(unlanded_above(&[false, false]), 2);
}
