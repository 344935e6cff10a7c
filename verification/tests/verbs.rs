use onevcs::change::SessionChange;
use onevcs::error::Error;
use onevcs::host::ChangeId;
use onevcs::label::parse_all;
use onevcs::ops::{MergePathCoverage, Registration, ResolvedPolicy, UNPROVEN};
use onevcs::rules::{Approvals, MergePolicy};
use onevcs::verbs::{
    change_lines, described_body, exclusions, explicit_body, failure_lines, filter_is_inline,
    held_draft, holder_line, holders_matching, no_change, pass_identities, supersession_recorded,
    BodySource, Lifecycle, Preservation, Preserved, Retention, SessionHolder, DEFAULT_HELD_REASON,
};

fn reason(error: Error) -> String {
    match error {
        Error::Invalid { reason } => reason,
        other => panic!("expected a refusal, got {other:?}"),
    }
}

fn words(argv: &[&str]) -> Vec<String> {
    argv.iter().map(|word| word.to_string()).collect()
}

#[test]
fn a_body_is_taken_from_one_option_and_never_two() {
    let prefix = words(&["onevcs", "publish", "tok"]);
    assert_eq!(explicit_body(&prefix, None, None).unwrap(), BodySource::Absent);
    assert_eq!(explicit_body(&prefix, Some("hi".to_owned()), None).unwrap(), BodySource::Text("hi".to_owned()));
    assert_eq!(
        explicit_body(&prefix, None, Some("/b.md".to_owned())).unwrap(),
        BodySource::File("/b.md".to_owned())
    );
    assert_eq!(
        reason(explicit_body(&prefix, Some("hi".to_owned()), Some("/b.md".to_owned())).unwrap_err()),
        "--body and --body-file both name the body of the change request, and it is opened with one body. Keep the one that holds it: `onevcs publish tok --body-file /b.md` for the body in /b.md, or `onevcs publish tok --body TEXT` for the text as typed"
    );
}

#[test]
fn a_description_must_be_handed_a_body() {
    assert_eq!(
        reason(described_body("tok", None, None).unwrap_err()),
        "a description is the change request's body, and neither --body nor --body-file names one. Hand it over as a file — `onevcs change describe tok --body-file PATH` — or as text: `onevcs change describe tok --body TEXT`"
    );
    assert_eq!(described_body("tok", Some("x".to_owned()), None).unwrap(), BodySource::Text("x".to_owned()));
    assert!(reason(described_body("tok", Some("x".to_owned()), Some("p".to_owned())).unwrap_err())
        .contains("`onevcs change describe tok --body-file p`"));
}

#[test]
fn a_draft_reason_needs_a_draft() {
    assert_eq!(held_draft("tok", false, None).unwrap(), None);
    assert_eq!(held_draft("tok", true, None).unwrap(), Some(DEFAULT_HELD_REASON.to_owned()));
    assert_eq!(held_draft("tok", true, Some("waiting on review")).unwrap(), Some("waiting on review".to_owned()));
    assert_eq!(
        reason(held_draft("tok", false, Some("why")).unwrap_err()),
        "--draft-reason says why a draft is held, and nothing asked for a draft. Add --draft — `onevcs publish tok --draft --draft-reason TEXT` — or drop the reason"
    );
}

fn preserved(outcome: Preservation, remote: Option<&str>) -> Preserved {
    Preserved {
        branch: "topic".to_owned(),
        identity: "github.com/o/r".to_owned(),
        remote: remote.map(str::to_owned),
        commit: Some("abc".to_owned()),
        from: "/w/r".to_owned(),
        outcome,
    }
}

#[test]
fn each_preservation_outcome_is_said_plainly() {
    assert_eq!(
        preserved(Preservation::Pushed, Some("origin")).describe(),
        "preserved: branch \"topic\" of github.com/o/r is on origin at abc, pushed from /w/r. Nothing was published — no change request, no merge path, no base touched — so it still needs the verb `onevcs recoverable` names to land it"
    );
    assert_eq!(
        preserved(Preservation::AlreadyOnOrigin, None).describe(),
        "already on origin: unrecorded carries branch \"topic\" of github.com/o/r at abc, so nothing was pushed"
    );
    assert_eq!(
        preserved(Preservation::NoRemote, None).describe(),
        "no remote: /w/r holds branch \"topic\" of github.com/o/r at abc and has no `origin` to push it to, so nothing was attempted and nothing outside this host carries that commit"
    );
}

#[test]
fn a_change_is_printed_field_by_field_with_its_body_last() {
    let change = SessionChange {
        url: "https://github.com/o/r/pull/7".to_owned(),
        id: ChangeId("7".to_owned()),
        base: "main".to_owned(),
        draft: true,
        title: "Add it".to_owned(),
        body: "first\r\nsecond".to_owned(),
    };
    assert_eq!(
        change_lines(&change),
        vec![
            "change request: https://github.com/o/r/pull/7",
            "id: 7",
            "base: main",
            "draft: yes (the host holds it as a draft)",
            "title: Add it",
            "body:",
            "  first",
            "  second",
        ]
    );
    assert_eq!(no_change("tok"), "session tok has no open change request on the host");
}

#[test]
fn a_retirement_pass_covers_each_identity_once() {
    let keys = words(&["b", "a", "b"]);
    assert_eq!(pass_identities(None, &keys), words(&["a", "b"]));
    assert_eq!(pass_identities(Some("z".to_owned()), &keys), words(&["z"]));
    assert_eq!(
        exclusions(&words(&["a", "b"]), &words(&["x", "y"])),
        vec![
            ("a".to_owned(), "x".to_owned()),
            ("a".to_owned(), "y".to_owned()),
            ("b".to_owned(), "x".to_owned()),
            ("b".to_owned(), "y".to_owned()),
        ]
    );
    assert_eq!(
        supersession_recorded("old", "new", "abc"),
        "recorded: old is superseded by new, which landed at abc"
    );
}

#[test]
fn a_failed_publication_says_where_its_branch_is() {
    assert_eq!(failure_lines("it failed", "topic", &None), vec!["onevcs: it failed"]);
    assert_eq!(
        failure_lines("it failed", "topic", &Some(Retention::HandedBack("/w/r".to_owned()))),
        vec!["onevcs: it failed", "onevcs: branch \"topic\" is preserved in /w/r"]
    );
    assert_eq!(
        failure_lines("it failed", "topic", &Some(Retention::Refused("/w/r".to_owned())))[1],
        "onevcs: warning: /w/r refused branch \"topic\", so nothing outside this session carries it"
    );
}

#[test]
fn an_inline_filter_is_told_by_its_opening_brace() {
    assert!(filter_is_inline("  {\"kinds\": []}"));
    assert!(!filter_is_inline("filters/one.json"));
    assert!(!filter_is_inline(""));
}

#[test]
fn a_registration_names_its_policy_and_warns_when_nothing_covers_it() {
    let registered = Registration {
        identity: "github.com/o/r".to_owned(),
        alias: "r".to_owned(),
        checkout: "/w/r".to_owned(),
        gate: "make check".to_owned(),
        policy: ResolvedPolicy {
            publication: MergePolicy::ChangeOpen,
            publication_from: "the default".to_owned(),
            approvals: Approvals::NotRequired,
            approvals_from: "rule 1".to_owned(),
        },
        coverage: MergePathCoverage::Uncovered,
    };
    let lines = registered.lines();
    assert_eq!(lines[0], "github.com/o/r");
    assert_eq!(lines[1], "  alias: r");
    assert_eq!(lines[2], "  publication: change-open (from the default)");
    assert_eq!(lines[3], "  approvals: none (from rule 1)");
    assert_eq!(lines[4], "  gate: make check");
    assert_eq!(lines[5], "  merge-path coverage: none");
    assert_eq!(registered.warning(), Some(UNPROVEN));
    let covered = Registration {
        coverage: MergePathCoverage::Covered { by: "a pre-push hook".to_owned() },
        ..registered
    };
    assert_eq!(covered.lines()[5], "  merge-path coverage: a pre-push hook");
    assert_eq!(covered.warning(), None);
}

fn holder(token: &str, labels: &[&str]) -> SessionHolder {
    SessionHolder {
        token: token.to_owned(),
        state: Lifecycle::Open,
        liveness: "alive".to_owned(),
        owner_pid: 42,
        branch: "topic".to_owned(),
        worktree: "/wt".to_owned(),
        labels: parse_all(&words(labels)).unwrap(),
    }
}

#[test]
fn holders_are_filtered_by_label_and_spelled_a_line_each() {
    assert_eq!(holder_line(&holder("s-1", &[])), "s-1\topen\talive\tpid=42\ttopic\t/wt");
    assert_eq!(
        holder_line(&holder("s-2", &["run=7", "team=a"])),
        "s-2\topen\talive\tpid=42\ttopic\t/wt\trun=7\tteam=a"
    );
    let wanted = parse_all(&words(&["run=7"])).unwrap();
    let kept = holders_matching(vec![holder("s-1", &[]), holder("s-2", &["run=7"]), holder("s-3", &["run=8"])], &wanted);
    assert_eq!(kept.len(), 1);
    assert_eq!(kept[0].token, "s-2");
    let everyone = parse_all(&[]).unwrap();
    assert_eq!(holders_matching(vec![holder("s-1", &[]), holder("s-2", &["run=7"])], &everyone).len(), 2);
}
