use onevcs::declaration::{
    check_schema_version, inside_the_repository, locate, validate, Declaration, DeclaredTarget,
    RegistryId, RetiredArtifact, TargetName,
};
use onevcs::error::Error;
use onevcs::integrate::{BranchOutcome, Ending, Outcome, Status};

fn id(value: &str) -> RegistryId {
    RegistryId::try_from(value.to_owned()).expect("a registry id")
}

fn target(name: &str, value: &str) -> DeclaredTarget {
    DeclaredTarget {
        id: id(value),
        name: TargetName(name.to_owned()),
        what: "the library".to_owned(),
        published_by: "release.yml / publish".to_owned(),
        manifest: None,
        covers: Vec::new(),
    }
}

fn reason(e: Error) -> String {
    match e {
        Error::Invalid { reason } => reason,
        other => panic!("expected an invalid-input refusal, got {other:?}"),
    }
}

#[test]
fn a_declaration_is_found_beside_a_repository_root() {
    assert_eq!(locate("/repo", true, true).unwrap(), "/repo/release-targets.toml");
    assert_eq!(locate("/repo/x.toml", false, true).unwrap(), "/repo/x.toml");
    assert!(reason(locate("/repo", true, false).unwrap_err())
        .starts_with("/repo/release-targets.toml declares no release targets"));
    assert!(check_schema_version("/d", None).is_err());
    assert!(check_schema_version("/d", Some(0)).is_err());
    assert!(check_schema_version("/d", Some(1)).is_ok());
    assert!(inside_the_repository("scripts/probe.sh", "probe").is_ok());
    assert_eq!(inside_the_repository("", "probe").unwrap_err(), "probe is an empty path");
    assert!(inside_the_repository("/etc/x", "probe").is_err());
}

#[test]
fn a_declaration_names_each_target_once() {
    let good = Declaration {
        schema_version: 1,
        probe: None,
        targets: vec![target("lib", "crate:onevcs"), target("cli", "pypi:onevcs-cli")],
        retired: Vec::new(),
    };
    assert!(validate(&good, "/d").is_ok());
    let empty = Declaration { schema_version: 1, probe: None, targets: Vec::new(), retired: Vec::new() };
    assert!(reason(validate(&empty, "/d").unwrap_err()).contains("declares no [[target]]"));
    let twice = Declaration {
        schema_version: 1,
        probe: None,
        targets: vec![target("lib", "crate:onevcs"), target("lib", "crate:other")],
        retired: Vec::new(),
    };
    assert!(reason(validate(&twice, "/d").unwrap_err()).contains("taking the short name \"lib\""));
    assert!(good.target(&TargetName("cli".to_owned())).is_some());
    assert!(good.target(&TargetName("none".to_owned())).is_none());
}

#[test]
fn a_declaration_reports_what_it_declares() {
    let mut lib = target("lib", "crate:onevcs");
    lib.manifest = Some("Cargo.toml".to_owned());
    lib.covers = vec![id("crate:onevcs-macros"), id("crate:onevcs-core")];
    let declared = Declaration {
        schema_version: 1,
        probe: Some("scripts/probe.sh".to_owned()),
        targets: vec![lib, target("cli", "pypi:onevcs-cli")],
        retired: vec![RetiredArtifact { id: id("npm:onevcs"), why: "moved".to_owned() }],
    };
    assert_eq!(
        declared.render(),
        vec![
            "schema version: 1",
            "probe: scripts/probe.sh",
            "targets:",
            "  lib\tcrate:onevcs\tthe library",
            "    published by: release.yml / publish",
            "    manifest: Cargo.toml",
            "    covers: crate:onevcs-macros, crate:onevcs-core",
            "  cli\tpypi:onevcs-cli\tthe library",
            "    published by: release.yml / publish",
            "retired:",
            "  npm:onevcs\tmoved",
        ]
    );
    let bare = Declaration { schema_version: 1, probe: None, targets: vec![], retired: vec![] };
    assert_eq!(bare.render(), vec!["schema version: 1", "probe: none", "targets:"]);
}

#[test]
fn a_train_reports_each_candidate_and_where_it_left_the_base() {
    let outcome = Outcome {
        base: "main".to_owned(),
        branches: vec![
            BranchOutcome { branch: "a".to_owned(), status: Status::Merged },
            BranchOutcome { branch: "b".to_owned(), status: Status::Skipped("conflict".to_owned()) },
        ],
        ending: Ending::Advanced,
    };
    assert_eq!(
        outcome.render(),
        vec![
            "Integration train for main:",
            "  a: merged",
            "  b: skipped (conflict)",
            "Base advanced: yes",
            "Pushed: no",
        ]
    );
}
