use onevcs::error::Error;
use onevcs::git::{
    already_integrates, merge_tree_args, tree_args, branches, checked, current_branch, default_branch, advertised_head, tracked_branch, has_commit_args, is_dirty, log_messages,
    message_policy, tip, unpublished_ahead, unpublished_branches, Asked, MessagePolicy, Output,
};

fn out(status: i32, stdout: &str, stderr: &str) -> Output {
    Output { status, stdout: stdout.to_owned(), stderr: stderr.to_owned() }
}

fn reason(e: Error) -> String {
    match e {
        Error::Invalid { reason } => reason,
        other => panic!("expected an invalid-input refusal, got {other:?}"),
    }
}

#[test]
fn a_failed_command_is_refused_naming_it_and_its_most_specific_line() {
    let args = vec!["rev-parse".to_owned(), "HEAD".to_owned()];
    assert!(checked(&args, out(0, "abc\n", "")).is_ok());
    assert_eq!(
        reason(checked(&args, out(128, "", "  fatal: not a git repository \n")).unwrap_err()),
        "git rev-parse HEAD failed (exit 128): fatal: not a git repository"
    );
    assert_eq!(
        reason(checked(&args, out(-1, " ", "")).unwrap_err()),
        "git rev-parse HEAD failed (exit -1): <no output>"
    );
    assert_eq!(out(0, "x", "y").combined(), "xy");
    assert_eq!(out(1, " so \n", "").diagnostic(), "so");
}

#[test]
fn answers_read_as_the_values_git_printed() {
    assert_eq!(has_commit_args("abc"), vec!["cat-file", "-e", "abc^{commit}"]);
    assert_eq!(tip(Some(&out(0, "abc\n", ""))), Some("abc".to_owned()));
    assert_eq!(tip(Some(&out(1, "", "bad"))), None);
    assert_eq!(tip(None), None);
    assert_eq!(current_branch(out(0, "main\n", "")).unwrap(), "main");
    assert_eq!(branches(out(0, "a\n\nb\n", "")).unwrap(), vec!["a", "b"]);
    assert_eq!(is_dirty(out(0, " M file\n", "")).unwrap(), true);
    assert_eq!(is_dirty(out(0, "", "")).unwrap(), false);
    assert!(is_dirty(out(1, "", "x")).is_err());
}

#[test]
fn a_default_branch_is_the_one_plausible_candidate_or_a_refusal() {
    assert_eq!(default_branch("origin", None, None, &["main".to_owned()], None).unwrap(), "main");
    assert_eq!(default_branch("origin", None, None, &[], Some(&out(0, "trunk\n", ""))).unwrap(), "trunk");
    assert_eq!(
        reason(default_branch("origin", None, None, &["main".to_owned(), "dev".to_owned()], None).unwrap_err()),
        "cannot determine the default branch of remote \"origin\": origin/HEAD is missing or stale, \
         the remote advertises no HEAD of its own, and the plausible remote branches are main, dev; \
         pass an explicit --base"
    );
    assert!(reason(default_branch("origin", None, None, &[], None).unwrap_err()).contains("branches are none;"));
}

#[test]
fn the_remote_head_settles_the_default_branch_before_any_listing() {
    let two = ["main".to_owned(), "dev".to_owned()];
    assert_eq!(default_branch("origin", Some("dev".to_owned()), Some("main".to_owned()), &two, None).unwrap(), "dev");
    assert_eq!(default_branch("origin", None, Some("main".to_owned()), &two, None).unwrap(), "main");
    assert_eq!(default_branch("origin", None, Some("trunk".to_owned()), &[], None).unwrap(), "trunk");
}

#[test]
fn the_tracked_head_stands_only_while_its_ref_exists() {
    let named = out(0, "origin/main\n", "");
    assert_eq!(tracked_branch("origin", &named, Some(&out(0, "", ""))), Some("main".to_owned()));
    assert_eq!(tracked_branch("origin", &named, Some(&out(1, "", ""))), None);
    assert_eq!(tracked_branch("origin", &named, None), None);
    assert_eq!(tracked_branch("upstream", &named, Some(&out(0, "", ""))), None);
    let listing = out(0, "ref: refs/heads/trunk\tHEAD\nabc\tHEAD\n", "");
    assert_eq!(advertised_head(&listing), Some("trunk".to_owned()));
    assert_eq!(advertised_head(&out(2, "ref: refs/heads/trunk\tHEAD\n", "")), None);
}

#[test]
fn a_count_nobody_got_is_never_a_count_of_none() {
    assert_eq!(unpublished_ahead("/c", "b", &out(0, "3\n", ""), true).unwrap(), 3);
    assert_eq!(unpublished_ahead("/c", "gone", &out(128, "", "bad revision"), false).unwrap(), 0);
    assert_eq!(
        reason(unpublished_ahead("/c", "b", &out(128, "", " denied \n"), true).unwrap_err()),
        "git could not count what \"b\" holds in /c, and a count nobody got is not a count of none: denied"
    );
    assert!(reason(unpublished_ahead("/c", "b", &out(0, "many", ""), true).unwrap_err())
        .contains("which is not a number of commits"));
    assert_eq!(
        unpublished_branches(&["a".to_owned(), "b".to_owned(), "c".to_owned()], &[0, 2, 1]),
        vec!["b", "c"]
    );
}

#[test]
fn commit_records_split_at_their_separators() {
    let stdout = "aaa\0first line\n\nbody\n\u{1e}\nbbb\0second\n\u{1e}\n";
    let commits = log_messages("main", "topic", out(0, stdout, "")).unwrap();
    assert_eq!(commits.len(), 2);
    assert_eq!((commits[0].sha.as_str(), commits[0].message.as_str()), ("aaa", "first line\n\nbody"));
    assert_eq!((commits[1].sha.as_str(), commits[1].message.as_str()), ("bbb", "second"));
}

#[test]
fn a_read_names_its_own_stores_ahead_of_the_borrowed_one() {
    let plain = Asked::borrowing("/repo", None);
    assert_eq!(plain.path(), "/repo");
    assert!(plain.reading_also(&[]).is_empty());
    let lent = Asked::borrowing("/repo", Some("/lender/objects"));
    assert_eq!(
        lent.reading_also(&["/own/objects".to_owned()]),
        vec![(
            "GIT_ALTERNATE_OBJECT_DIRECTORIES".to_owned(),
            "/own/objects:/lender/objects".to_owned()
        )]
    );
    let unreadable = Asked::borrowing("/repo", Some("/a:b"));
    assert!(unreadable.reading_also(&[]).is_empty());
}

#[test]
fn a_commit_msg_hook_states_a_policy_only_where_it_runs() {
    assert_eq!(message_policy(false, &out(1, "x", "y")), MessagePolicy::Unstated);
    assert_eq!(message_policy(true, &out(0, "", "")), MessagePolicy::Accepted);
    assert_eq!(
        message_policy(true, &out(1, "subject too long\n", "see policy\n")),
        MessagePolicy::Rejected { status: 1, output: "subject too long\nsee policy\n".to_owned() }
    );
}

#[test]
fn a_base_integrates_a_commit_whose_merge_writes_its_own_tree() {
    assert_eq!(merge_tree_args("main", "abc"), vec!["merge-tree", "--write-tree", "main", "abc"]);
    assert_eq!(tree_args("main"), vec!["rev-parse", "--verify", "main^{tree}"]);
    let merged = out(0, "t1\nmessages\n", "");
    assert!(already_integrates("main", "abc", &merged, Some(out(0, "t1\n", ""))).unwrap());
    assert!(!already_integrates("main", "abc", &merged, Some(out(0, "t2\n", ""))).unwrap());
    assert!(!already_integrates("main", "abc", &out(1, "t3\nCONFLICT", ""), None).unwrap());
    assert!(reason(already_integrates("main", "abc", &out(128, "", "fatal: bad\n"), None).unwrap_err())
        .starts_with("git merge-tree --write-tree main abc failed: "));
    assert!(reason(already_integrates("main", "abc", &merged, Some(out(128, "", "no tree"))).unwrap_err())
        .starts_with("git rev-parse --verify main^{tree} failed (exit 128): "));
}

#[test]
fn a_sharing_clone_carries_the_lenders_view_of_origin_and_its_hooks() {
    let configured = out(0, "/abs/hooks\n", "");
    let plan = onevcs::git::clone_sharing("/src", "/dst", "git@h:o/r.git", "main", true, &configured, false);
    assert_eq!(
        plan,
        vec![
            vec!["clone", "--shared", "--no-checkout", "/src", "/dst"],
            vec!["remote", "set-url", "origin", "git@h:o/r.git"],
            vec!["fetch", "--no-tags", "/src", "+refs/remotes/origin/*:refs/remotes/origin/*"],
            vec!["symbolic-ref", "refs/remotes/origin/HEAD", "refs/remotes/origin/main"],
            vec!["config", "core.hooksPath", "/abs/hooks"],
        ]
    );
    let bare = onevcs::git::clone_sharing("/src", "/dst", "o", "trunk", false, &out(1, "", ""), false);
    assert_eq!(bare.len(), 3);
    assert_eq!(bare[2], vec!["symbolic-ref", "refs/remotes/origin/HEAD", "refs/remotes/origin/trunk"]);
}
