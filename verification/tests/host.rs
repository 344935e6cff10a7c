use onevcs::error::Error;
use onevcs::gh::Answer;
use onevcs::host::{
    addressable, commit, consult, is_commit_hash, matchable, merge_args, merge_outcome,
    no_checks_yet, no_required_checks, path_segment, usable, Check, Consult, GitHub, MergeOutcome,
    Sha,
};
use onevcs::rules::MergePolicy;

fn answer(code: Option<i32>, stdout: &str, stderr: &str) -> Answer {
    Answer { code, stdout: stdout.to_owned(), stderr: stderr.to_owned() }
}

fn check(status: &str, conclusion: Option<&str>) -> Check {
    Check {
        name: "ci".to_owned(),
        status: status.to_owned(),
        conclusion: conclusion.map(str::to_owned),
        required: true,
        head: None,
        url: None,
    }
}

#[test]
fn a_checks_answer_is_read_when_it_exited_zero_or_pending() {
    assert!(usable(&answer(Some(0), "", "")));
    assert!(usable(&answer(Some(8), "", "")));
    assert!(!usable(&answer(Some(1), "", "")));
    assert!(!usable(&answer(None, "", "")));
    assert!(no_required_checks(&answer(Some(1), " ", "  no required checks reported on the 'x' branch")));
    assert!(!no_required_checks(&answer(Some(1), "row", "no required checks reported on the 'x' branch")));
    assert!(no_checks_yet(&answer(Some(1), "", "no checks reported on the 'x' branch")));
}

#[test]
fn the_check_source_knob_is_read_trimmed_and_caseless() {
    assert_eq!(consult(None).unwrap(), Consult::Either);
    assert_eq!(consult(Some(" ")).unwrap(), Consult::Either);
    assert_eq!(consult(Some("AUTO")).unwrap(), Consult::Either);
    assert_eq!(consult(Some(" Status-Checks ")).unwrap(), Consult::StatusChecks);
    assert_eq!(consult(Some("actions")).unwrap(), Consult::Actions);
    match consult(Some("Rollup")) {
        Err(Error::Invalid { reason }) => assert_eq!(
            reason,
            "ONEVCS_CHECK_SOURCE names \"rollup\", which is not a check source this build can read: it must be \"auto\", \"status-checks\", or \"actions\""
        ),
        other => panic!("expected a refusal, got {other:?}"),
    }
}

#[test]
fn a_settled_check_is_exactly_one_of_green_or_red() {
    let green = check("COMPLETED", Some("Success"));
    assert!(green.settled() && green.green() && !green.red());
    let red = check("completed", Some("failure"));
    assert!(red.settled() && !red.green() && red.red());
    let waiting = check("in_progress", None);
    assert!(!waiting.settled() && !waiting.green() && !waiting.red());
    assert!(check("completed", Some("neutral")).green());
    assert!(check("completed", None).red());
}

#[test]
fn values_sent_to_the_host_are_checked_first() {
    assert!(addressable("owner/name", "repository").is_ok());
    assert!(addressable("", "repository").is_err());
    assert!(addressable("--flag", "repository").is_err());
    assert!(matchable("ci", "https://x").is_ok());
    assert!(matchable("", "https://x").is_err());
    assert!(is_commit_hash("abc123"));
    assert!(!is_commit_hash(""));
    assert!(!is_commit_hash("xyz"));
    assert_eq!(commit(&Sha("abc".to_owned())).unwrap(), "abc");
    assert!(commit(&Sha("main".to_owned())).is_err());
    assert_eq!(path_segment("a b/c~d"), "a%20b%2Fc~d");
    assert_eq!(path_segment("é"), "%C3%A9");
}

#[test]
fn a_host_is_addressed_at_one_repository_and_merges_by_policy() {
    let gh = GitHub::new("owner/name".to_owned()).unwrap();
    assert_eq!(gh.repo(), "owner/name");
    for bad in ["owner", "owner/", "/name", "-o/name", "o/n/x", "o /n"] {
        match GitHub::new(bad.to_owned()) {
            Err(Error::Invalid { reason }) => {
                assert_eq!(reason, format!("{bad:?} does not name one repository as owner/name"))
            }
            other => panic!("expected {bad:?} refused, got {other:?}"),
        }
    }
    assert_eq!(merge_args(&gh, "7", MergePolicy::ChangeOpen), None);
    assert_eq!(
        merge_args(&gh, "7", MergePolicy::ChangeDirect),
        Some(vec!["pr".to_owned(), "merge".to_owned(), "7".to_owned(), "--repo".to_owned(), "owner/name".to_owned(), "--squash".to_owned()])
    );
    assert!(merge_args(&gh, "7", MergePolicy::ChangeAuto).unwrap().contains(&"--auto".to_owned()));
    assert_eq!(merge_outcome(MergePolicy::ChangeOpen, None, "u").unwrap(), MergeOutcome::Open);
    assert_eq!(merge_outcome(MergePolicy::ChangeAuto, None, "u").unwrap(), MergeOutcome::Queued);
    assert_eq!(
        merge_outcome(MergePolicy::ChangeDirect, Some(Sha("s".to_owned())), "u").unwrap(),
        MergeOutcome::Merged(Sha("s".to_owned()))
    );
    match merge_outcome(MergePolicy::ChangeDirect, None, "https://x/pull/7") {
        Err(Error::GateFailed { reason }) => {
            assert_eq!(reason, "the host accepted the merge of https://x/pull/7 but reports it unmerged")
        }
        other => panic!("expected a refusal, got {other:?}"),
    }
}
