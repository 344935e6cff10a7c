use onevcs::declaration::admit_declaration;
use onevcs::error::Error;
use onevcs::policy::admit_rules;

fn reason(e: Error) -> String {
    match e {
        Error::Invalid { reason } => reason,
        other => panic!("expected an invalid-input refusal, got {other:?}"),
    }
}

#[test]
fn a_declaration_is_admitted_only_as_toml_at_a_version_this_build_reads() {
    assert!(reason(admit_declaration("schema_version = [", "/r/release-targets.toml").unwrap_err())
        .starts_with("the release declaration at /r/release-targets.toml is not TOML: "));
    assert!(reason(admit_declaration("[[target]]\nid = \"crate:x\"\n", "/r").unwrap_err())
        .contains("declares no schema_version"));
    assert!(reason(admit_declaration("schema_version = 0\n", "/r").unwrap_err())
        .contains("declares schema_version 0; this build reads schema_version 1 and newer"));
    assert_eq!(admit_declaration("schema_version = 1\n", "/r").unwrap(), true);
    assert_eq!(admit_declaration("schema_version = 2\nfuture = 1\n", "/r").unwrap(), false);
    let typo = admit_declaration("schema_version = 1\n[[target]]\nid = \"crate:x\"\nwaht = \"y\"\n", "/r");
    assert!(reason(typo.unwrap_err()).contains("names \"waht\" in [[target]] 1"));
}

#[test]
fn a_rules_file_says_whether_it_carries_spent_gates() {
    assert!(reason(admit_rules("version: [", "/h/rules.yaml").unwrap_err())
        .starts_with("the rules file at /h/rules.yaml is malformed: "));
    assert!(reason(admit_rules("version: 9\n", "/h/rules.yaml").unwrap_err())
        .contains("declares version 9; this build reads versions 1 to 3"));
    let old = "version: 2\ndefault:\n  publication: local-direct\n  approvals: none\n  gate: make\n";
    assert_eq!(admit_rules(old, "/h").unwrap(), true);
    let in_a_rule = "version: 1\nrules:\n  - match: {host: x}\n    gate: make\n";
    assert_eq!(admit_rules(in_a_rule, "/h").unwrap(), true);
    let current = "version: 3\ndefault:\n  publication: local-direct\n  approvals: none\n  gate: make\n";
    assert_eq!(admit_rules(current, "/h").unwrap(), false);
    assert_eq!(admit_rules("version: 2\n", "/h").unwrap(), false);
}
