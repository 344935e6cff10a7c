use onevcs::releases::{
    declaration_state, describe_method, discovery_lines, spell_baseline, spell_version,
    Acknowledgement, Baseline, DeclarationSource, Probe, ReleaseAnswer, ReleaseMethod,
    ReleaseStatus, Released, RepositoryReleases, SupersededRelease, TargetRow,
};

#[test]
fn not_answered_never_reads_as_no_release() {
    assert_eq!(ReleaseAnswer::Released { version: "1.2.0".to_owned() }.answered(), "released: 1.2.0");
    assert_eq!(ReleaseAnswer::NoRelease.answered(), "no release yet");
    assert_eq!(
        ReleaseAnswer::NotAnswered { reason: "probe failed".to_owned() }.answered(),
        "not answered: probe failed"
    );
    assert_eq!(spell_baseline(&Baseline::NoRelease), "no release at landing");
    assert_eq!(spell_baseline(&Baseline::At { version: "1.0".to_owned() }), "1.0");
    assert_eq!(spell_version(""), "no release");
    assert_eq!(spell_version("2.0"), "2.0");
}

#[test]
fn each_release_status_reads_as_itself() {
    assert_eq!(
        ReleaseStatus::Released {
            target: "cli".to_owned(),
            style: "automated".to_owned(),
            version: "1.2.0".to_owned(),
            source: "declared".to_owned(),
        }
        .describe(),
        "released: cli 1.2.0 (automated, declared)"
    );
    assert_eq!(
        ReleaseStatus::NotReleased { at_landing: Baseline::At { version: "1.0".to_owned() }, now: String::new() }
            .describe(),
        "not released: at landing 1.0, now no release"
    );
    assert_eq!(
        ReleaseStatus::AwaitingHumanStep {
            target: "docs".to_owned(),
            action: "upload the site".to_owned(),
            since: "2024-01-01".to_owned(),
        }
        .describe(),
        "awaiting human step: docs since 2024-01-01\n  action: upload the site"
    );
    assert_eq!(ReleaseStatus::NotLanded.describe(), "not landed");
    assert_eq!(ReleaseStatus::NotAnswered { reason: "x".to_owned() }.describe(), "not answered: x");
}

#[test]
fn an_acknowledgement_lists_what_it_replaced() {
    let recorded = Acknowledgement {
        target: "docs".to_owned(),
        version: "2".to_owned(),
        landing_commit: "abc".to_owned(),
        identity: "github.com/o/r".to_owned(),
        recorded_at: "t2".to_owned(),
        actor: "ann".to_owned(),
        superseded: vec![SupersededRelease {
            version: "1".to_owned(),
            recorded_at: "t1".to_owned(),
            actor: "bob".to_owned(),
        }],
    };
    assert_eq!(
        recorded.render(),
        "acknowledged: docs 2 for landing abc\n  identity: github.com/o/r\n  recorded at: t2 by ann\n  superseded: 1 recorded at t1 by bob\n"
    );
}

#[test]
fn a_repository_table_names_each_target_and_its_source() {
    assert_eq!(
        declaration_state(&DeclarationSource::Undeclared { looked_in: "/r".to_owned() }),
        "undeclared: no release-targets.toml in /r"
    );
    assert_eq!(
        declaration_state(&DeclarationSource::Unreadable { reason: "bad toml".to_owned() }),
        "unreadable: bad toml"
    );
    let script = ReleaseMethod::Automated {
        probe: Probe::Script { script: "tools/probe".to_owned(), args: vec!["--json".to_owned(), "x".to_owned()] },
    };
    assert_eq!(describe_method(&script), "script tools/probe --json x");
    assert_eq!(
        describe_method(&ReleaseMethod::Automated { probe: Probe::Shell { shell: "echo 1".to_owned() } }),
        "shell echo 1"
    );
    assert_eq!(describe_method(&ReleaseMethod::HumanStep { action: "ship".to_owned() }), "action: ship");
    let releases = RepositoryReleases {
        identity: "github.com/o/r".to_owned(),
        adoption: "adopted".to_owned(),
        default_target: None,
        declaration: DeclarationSource::Undeclared { looked_in: "/r".to_owned() },
        targets: vec![TargetRow {
            name: "cli".to_owned(),
            style: "automated".to_owned(),
            release: script,
            source: None,
        }],
    };
    let released = vec![Released {
        target: "cli".to_owned(),
        style: "automated".to_owned(),
        answer: ReleaseAnswer::NoRelease,
    }];
    assert_eq!(
        discovery_lines(&releases, &released),
        vec![
            "identity: github.com/o/r",
            "adoption: adopted",
            "default target: none",
            "declaration: undeclared: no release-targets.toml in /r",
            "targets:",
            "  cli\tautomated\tscript tools/probe --json x\tunknown",
            "released:",
            "  cli\tautomated\tno release yet",
        ]
    );
    let bare = RepositoryReleases { targets: Vec::new(), ..releases };
    assert_eq!(bare.lines().last().unwrap(), "targets: none");
}
