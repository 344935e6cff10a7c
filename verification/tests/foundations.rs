use onevcs::error::{invalid, Error};
use onevcs::event::{phase_of, EventKind, Phase};
use onevcs::gate::{
    comparison_env, highest, is_verdict_name, log_directory, log_name, log_number, own_command,
    pruned, Ruling, Verdict, NO_COMMAND,
};
use onevcs::gh::{invoke, program, slug, Answer};
use onevcs::guidance::{command, listed, quoted_output, word};
use onevcs::home::{expand_tilde, locks_dir, path_join, root, temporary_name};
use onevcs::ids::{artifact_id, digest, is_safe_name, session_token, short_digest};
use onevcs::lock::{git_identity, owner_record, path_for, recorded_owner};
use onevcs::merge_path::has_recorded_verdict;
use onevcs::rules::Gate;

#[test]
fn a_digest_is_the_hex_sha256_of_the_utf8_bytes() {
    assert_eq!(digest(""), "e3b0c44298fc1c149afbf4c8996fb92427ae41e4649b934ca495991b7852b855");
    assert_eq!(digest("abc"), "ba7816bf8f01cfea414140de5dae2223b00361a396177a9cb410ff61f20015ad");
    assert_eq!(short_digest("abc"), "ba7816bf8f01");
    assert_eq!(session_token("abc"), "s-ba7816bf8f01");
    assert_eq!(artifact_id("abc"), "a-ba7816bf8f01");
    assert_eq!(digest("é").len(), 64);
}

#[test]
fn a_session_token_is_s_and_twelve_lowercase_hex_digits_whatever_it_is_made_from() {
    for unique in ["", "abc", "host-1:4242:1700000000", "é/../x"] {
        let token = session_token(unique);
        assert_eq!(token.len(), 14);
        assert!(token.starts_with("s-"));
        assert!(token[2..].chars().all(|c| c.is_ascii_digit() || ('a'..='f').contains(&c)));
        assert!(is_safe_name(&token));
        let artifact = artifact_id(unique);
        assert_eq!(artifact.len(), 14);
        assert!(artifact.starts_with("a-") && is_safe_name(&artifact));
    }
    assert_ne!(session_token("one"), session_token("two"));
}

#[test]
fn only_plain_names_are_safe_file_names() {
    assert!(is_safe_name("s-abc_1.2"));
    assert!(!is_safe_name(""));
    assert!(!is_safe_name("."));
    assert!(!is_safe_name(".."));
    assert!(!is_safe_name("a/b"));
    assert!(!is_safe_name("ü"));
}

#[test]
fn a_word_is_quoted_only_where_a_shell_would_split_it() {
    assert_eq!(word("plain/path-1.0"), "plain/path-1.0");
    assert_eq!(word(""), "''");
    assert_eq!(word("two words"), "'two words'");
    assert_eq!(word("it's"), "'it'\\''s'");
    assert_eq!(word("~/x"), "'~/x'");
    assert_eq!(command(&["onevcs", "import", "a b"]), "onevcs import 'a b'");
}

#[test]
fn a_listing_quotes_each_value_and_counts_what_it_leaves_out() {
    assert_eq!(listed(&[]), "no path git named");
    assert_eq!(listed(&["a".to_owned(), "b c".to_owned()]), "\"a\", \"b c\"");
    let many: Vec<String> = (0..12).map(|i| i.to_string()).collect();
    let shown = listed(&many);
    assert!(shown.ends_with(", and 2 more"), "{shown}");
    assert!(shown.starts_with("\"0\", \"1\""));
}

#[test]
fn untrusted_output_shows_control_and_format_characters_escaped() {
    assert_eq!(quoted_output("ok\r\nnext\tx"), "ok\nnext\tx");
    assert_eq!(quoted_output("a\u{1b}[31m"), "a\\u{001b}[31m");
    assert_eq!(quoted_output("zero\u{200b}width"), "zero\\u{200b}width");
    assert_eq!(quoted_output("bidi\u{202e}"), "bidi\\u{202e}");
    assert_eq!(quoted_output("héllo"), "héllo");
}

#[test]
fn paths_join_and_the_state_root_is_chosen() {
    assert_eq!(path_join("/a", "b"), "/a/b");
    assert_eq!(path_join("/a/", "b"), "/a/b");
    assert_eq!(path_join("/a", "/b"), "/b");
    assert_eq!(path_join("", "b"), "b");
    assert_eq!(root(Some("/state"), Some("/home/u")).unwrap(), "/state");
    assert_eq!(root(None, Some("/home/u")).unwrap(), "/home/u/.onevcs");
    assert!(matches!(root(Some(""), Some("/home/u")), Err(Error::Invalid { .. })));
    assert!(matches!(root(None, None), Err(Error::Invalid { .. })));
    assert_eq!(locks_dir("/state"), "/state/locks");
    assert_eq!(expand_tilde("~/work", Some("/home/u")), "/home/u/work");
    assert_eq!(expand_tilde("~user/work", Some("/home/u")), "~user/work");
    assert_eq!(expand_tilde("~/work", None), "~/work");
    assert_eq!(temporary_name("session.json", "u1"), ".session.json.u1");
}

#[test]
fn a_lock_is_keyed_by_the_digest_of_its_identity() {
    assert_eq!(
        path_for("/state/locks", "abc"),
        "/state/locks/ba7816bf8f01cfea414140de5dae2223b00361a396177a9cb410ff61f20015ad.lock"
    );
    assert_eq!(git_identity("/repo/.git"), "git:/repo/.git");
    assert_eq!(owner_record(314), "pid=314");
    assert_eq!(recorded_owner(Some("  pid=1\n")), "pid=1");
    assert_eq!(recorded_owner(Some(" \n")), "unknown owner");
    assert_eq!(recorded_owner(None), "unknown owner");
}

#[test]
fn a_gate_verdict_records_what_ran_and_how_it_ended() {
    assert_eq!(Ruling::from_exit(true), Ruling::Passed);
    assert!(!Ruling::from_exit(false).passed());
    assert_eq!(Ruling::Rejected.describe(), "fail");
    let argv = vec!["make".to_owned(), "check".to_owned()];
    let unnamed = Verdict::unnamed(&argv);
    assert_eq!(unnamed.output, NO_COMMAND);
    assert_eq!(unnamed.command, "make check");
    let unstarted = Verdict::unstarted(&argv, "make", "not found");
    assert_eq!(unstarted.output, "this gate's command \"make\" could not be run: not found\n");
    let finished = Verdict::finished(&argv, true, "out", "err");
    assert_eq!((finished.ruling, finished.output.as_str()), (Ruling::Passed, "outerr"));
    assert_eq!(own_command(&Gate::Command { command: argv.clone() }), Some(&argv));
    assert_eq!(own_command(&Gate::Kind { kind: "pre-push".to_owned() }), None);
    assert_eq!(comparison_env("origin", "main").len(), 2);
}

#[test]
fn gate_logs_are_numbered_and_pruned_oldest_first() {
    assert_eq!(log_name(7), "gate-0007.log");
    assert_eq!(log_number("gate-0007.log"), Some(7));
    assert_eq!(log_number(&log_name(12345)), Some(12345));
    assert_eq!(log_number("gate-.log"), None);
    assert_eq!(log_number("other.log"), None);
    assert!(is_verdict_name("gate-0001.log"));
    assert_eq!(highest(&["gate-0002.log".to_owned(), "x".to_owned(), "gate-0009.log".to_owned()]), 9);
    let names: Vec<String> = (1..=12).map(log_name).collect();
    assert_eq!(pruned(&names), vec![log_name(1), log_name(2)]);
    assert!(pruned(&names[..10]).is_empty());
    assert!(log_directory("/run", "feature/x").starts_with("/run/gate-logs/"));
    assert!(has_recorded_verdict(&[("x".to_owned(), true), ("gate-0001.log".to_owned(), true)]));
    assert!(!has_recorded_verdict(&[("gate-0001.log".to_owned(), false)]));
    assert!(!has_recorded_verdict(&[("notes.txt".to_owned(), true)]));
}

#[test]
fn gh_is_the_configured_program_and_a_failure_names_the_invocation() {
    assert_eq!(program(Some("/opt/gh")), "/opt/gh");
    assert_eq!(program(Some("")), "gh");
    assert_eq!(program(None), "gh");
    let args = vec!["pr".to_owned(), "view".to_owned()];
    let ok = Answer { code: Some(0), stdout: "{}".to_owned(), stderr: String::new() };
    assert_eq!(invoke(&args, ok).unwrap(), "{}");
    let failed = Answer { code: Some(1), stdout: "x".to_owned(), stderr: " denied \n".to_owned() };
    match invoke(&args, failed) {
        Err(Error::Invalid { reason }) => assert_eq!(reason, "gh pr view failed: denied"),
        other => panic!("expected a refusal, got {other:?}"),
    }
    let killed = Answer { code: None, stdout: " partial ".to_owned(), stderr: String::new() };
    assert_eq!(killed.detail(), "partial");
    assert!(invoke(&args, killed).is_err());
    assert_eq!(slug("github.com/owner/name"), Some("owner/name".to_owned()));
    assert_eq!(slug("gitlab.com/owner/name"), None);
    assert_eq!(slug("github.com/owner"), None);
    assert_eq!(slug("github.com/owner/name/extra"), None);
}

#[test]
fn every_event_kind_reads_back_from_its_wire_spelling() {
    let kinds = [
        EventKind::BranchPreserved, EventKind::CommitPreserved, EventKind::Fetch,
        EventKind::LockAcquired, EventKind::LockWait, EventKind::RecoveryAttested,
        EventKind::SessionClosed, EventKind::SessionOpened, EventKind::ChangeCheck,
        EventKind::ChangeDescribed, EventKind::ChangeDrafted, EventKind::ChangeMerged,
        EventKind::ChangeOpened, EventKind::DraftLifted, EventKind::BranchRetired,
        EventKind::BranchSuperseded, EventKind::MergeCompleted, EventKind::MergeQueued,
        EventKind::SyncConflict, EventKind::ReleaseAcknowledged, EventKind::ReleaseObserved,
        EventKind::ReleaseProbed, EventKind::Push,
    ];
    for kind in kinds {
        assert_eq!(EventKind::named(kind.wire()), Some(kind));
    }
    assert_eq!(EventKind::named("no-such-kind"), None);
    assert_eq!(phase_of(EventKind::ChangeDescribed), Phase::Review);
    assert_eq!(phase_of(EventKind::MergeQueued), Phase::Integrate);
    assert_eq!(phase_of(EventKind::ReleaseProbed), Phase::Release);
    assert_eq!(phase_of(EventKind::Push), Phase::Development);
}

#[test]
fn every_error_kind_has_its_sentence_and_exit_code() {
    let reason = || "why".to_owned();
    let cases = [
        (Error::NotImplemented { operation: "Vcs::open".to_owned() }, "Vcs::open is not implemented yet: this build of onevcs is interface-only", 70u8),
        (Error::GateFailed { reason: reason() }, "gate failed: why", 1),
        (invalid(reason()), "invalid input: why", 2),
        (Error::SyncConflict { reason: reason() }, "sync conflict: why", 3),
        (Error::ChecksFailed { reason: reason() }, "required check failed: why", 1),
        (Error::ChecksUnsettled { reason: reason() }, "checks unsettled: why", 1),
        (Error::PushRejected { reason: reason() }, "push rejected: why", 1),
        (Error::PushedUnverified { reason: reason() }, "pushed, merge path unverified: why", 1),
        (Error::PoolExhausted { reason: reason() }, "pool exhausted: why", 4),
    ];
    for (error, message, code) in cases {
        assert_eq!(error.message(), message);
        assert_eq!(error.exit_code(), code);
    }
}
