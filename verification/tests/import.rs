use onevcs::error::Error;
use onevcs::git::{CommitMessage, Output};
use onevcs::import::{
    fetched_tip, heads_ref, name_to_write, preserved, refuse_a_rewrite, refuse_checked_out,
    remote_branch_part, scratch_ref, source_of, write_of, ImportAction, ImportRun, Imported, Source, Write,
    Wrote,
};

fn reason(e: Error) -> String {
    match e {
        Error::Invalid { reason } => reason,
        other => panic!("expected an invalid-input refusal, got {other:?}"),
    }
}

#[test]
fn a_preserved_name_is_flattened_under_preserved() {
    assert_eq!(preserved("feature"), "preserved/feature");
    let nested = preserved("feature/thing");
    assert!(nested.starts_with("preserved/"));
    assert!(!nested["preserved/".len()..].contains('/'));
}

#[test]
fn the_name_written_is_the_branch_unless_as_names_another() {
    assert_eq!(name_to_write("topic", true, None, false).unwrap(), "topic");
    assert_eq!(name_to_write("topic", true, Some("kept"), true).unwrap(), "kept");
    let refused = reason(name_to_write("bad..name", false, None, false).unwrap_err());
    assert!(refused.starts_with("\"bad..name\" is not a valid branch name; `onevcs recoverable`"));
    let refused = reason(name_to_write("topic", true, Some("x..y"), false).unwrap_err());
    assert_eq!(
        refused,
        "--as \"x..y\" is not a valid branch name: it is not a valid branch name"
    );
}

#[test]
fn a_checked_out_name_is_refused_naming_the_alternate() {
    assert!(refuse_checked_out("/d", "main", "topic", "topic", "/r").is_ok());
    let refused = reason(refuse_checked_out("/d", "topic", "topic", "topic", "/r").unwrap_err());
    assert!(refused.starts_with("/d has \"topic\" checked out, and import only ever writes refs"));
    assert!(refused.ends_with(
        "Import it under another name with `onevcs import topic --repo /r --as preserved/topic`"
    ));
}

#[test]
fn a_source_is_decided_by_what_from_is() {
    let remotes = vec!["origin".to_owned(), "fork".to_owned()];
    assert_eq!(
        source_of("/d", "topic", "/clone", true, &remotes, true).unwrap(),
        Source::Repository("/clone".to_owned())
    );
    assert_eq!(
        source_of("/d", "topic", "origin", false, &remotes, true).unwrap(),
        Source::Remote { remote: "origin".to_owned(), branch: "topic".to_owned() }
    );
    assert_eq!(
        source_of("/d", "topic", "fork/other", false, &remotes, true).unwrap(),
        Source::Remote { remote: "fork".to_owned(), branch: "other".to_owned() }
    );
    assert_eq!(
        reason(source_of("/d", "topic", "origin/..", false, &remotes, false).unwrap_err()),
        "--from \"origin/..\" names remote \"origin\" and \"..\" is not a valid branch name; spell it `origin/<branch>`"
    );
    let refused = reason(source_of("/d", "topic", "elsewhere", false, &remotes, true).unwrap_err());
    assert!(refused.starts_with(
        "--from \"elsewhere\" is neither a git repository on this host nor a remote of /d: its remotes are origin, fork."
    ));
    assert!(refused.contains("`origin/topic`"));
    let refused = reason(source_of("/d", "topic", "x", false, &[], true).unwrap_err());
    assert!(refused.contains("its remotes are none."));
}

#[test]
fn a_remote_branch_part_is_what_follows_the_first_slash() {
    assert_eq!(remote_branch_part("origin/a/b"), Some("a/b".to_owned()));
    assert_eq!(remote_branch_part("origin"), None);
}

#[test]
fn sources_describe_and_locate_themselves() {
    let remote = Source::Remote { remote: "origin".to_owned(), branch: "other".to_owned() };
    assert_eq!(remote.describe(), "origin/other");
    assert_eq!(remote.location(), "origin");
    assert_eq!(remote.branch("asked"), "other");
    let repo = Source::Repository("/clone".to_owned());
    assert_eq!(repo.describe(), "/clone");
    assert_eq!(repo.location(), "/clone");
    assert_eq!(repo.branch("asked"), "asked");
}

#[test]
fn a_fetch_that_found_nothing_or_no_commit_is_refused() {
    let source = Source::Repository("/clone".to_owned());
    assert_eq!(fetched_tip(&source, "b", true, Some("abc".to_owned())).unwrap(), "abc");
    assert_eq!(
        reason(fetched_tip(&source, "b", false, None).unwrap_err()),
        "/clone has no branch \"b\" to import; `onevcs recoverable` lists every preserved branch and the checkout it is in"
    );
    assert_eq!(
        reason(fetched_tip(&source, "b", true, None).unwrap_err()),
        "the fetch of \"b\" from /clone left no commit this build can read"
    );
}

#[test]
fn writing_a_name_is_created_unchanged_or_a_move() {
    assert_eq!(write_of(None, "abc"), Write::Settled(Wrote::Created));
    assert_eq!(write_of(Some("abc"), "abc"), Write::Settled(Wrote::Unchanged));
    assert_eq!(write_of(Some("old"), "abc"), Write::Moves);
    assert_eq!(scratch_ref("u1"), "refs/onevcs/import/u1");
    assert_eq!(heads_ref("topic"), "refs/heads/topic");
}

#[test]
fn a_rewrite_is_refused_naming_every_commit_it_would_lose() {
    assert!(refuse_a_rewrite(true, "/d", "topic", "topic", "/r", &[]).is_ok());
    let losing = vec![
        CommitMessage {
            sha: "0123456789abcdef0123".to_owned(),
            message: "  first subject  \nbody".to_owned(),
        },
        CommitMessage { sha: "abc".to_owned(), message: String::new() },
    ];
    let refused = reason(refuse_a_rewrite(false, "/d", "topic", "topic", "/r", &losing).unwrap_err());
    assert_eq!(
        refused,
        "/d already has \"topic\", and importing over it is not a fast-forward: 2 commit(s) it holds \
         are on no branch this import brings. They would be lost: 0123456789ab first subject; abc . \
         Import under another name with `onevcs import topic --repo /r --as preserved/topic`, or \
         delete \"topic\" there first if what it holds is spent"
    );
}

#[test]
fn an_import_reports_what_it_did() {
    let imported = Imported {
        destination: "/d".to_owned(),
        name: "topic".to_owned(),
        source: Source::Remote { remote: "origin".to_owned(), branch: "topic".to_owned() },
        tip: "abc".to_owned(),
        wrote: Wrote::FastForwarded,
    };
    assert_eq!(imported.report(), "fast-forwarded topic in /d from origin/topic, at abc");
}

fn said(status: i32, stdout: &str) -> Output {
    Output { status, stdout: stdout.to_owned(), stderr: String::new() }
}

/// Drive one import over scripted answers, recording every command it asked for.
fn drive(answers: Vec<Output>) -> (Vec<Vec<String>>, Result<Imported, Error>) {
    let (mut run, mut action) = ImportRun::start(
        "/dest".to_owned(),
        "feature".to_owned(),
        "feature".to_owned(),
        "/dest".to_owned(),
        Source::Repository("/src".to_owned()),
        "refs/onevcs/import/u".to_owned(),
    );
    let mut asked = Vec::new();
    let mut answers = answers.into_iter();
    loop {
        match action {
            ImportAction::Finish(answer) => return (asked, answer),
            ImportAction::Ask(argv) => {
                asked.push(argv);
                action = run.step(answers.next().expect("a scripted answer"));
            }
        }
    }
}

#[test]
fn an_import_refuses_a_checked_out_name_before_fetching_anything() {
    let (asked, answer) = drive(vec![said(0, "feature\n")]);
    assert_eq!(asked, vec![vec!["rev-parse", "--abbrev-ref", "HEAD"]]);
    assert!(reason(answer.unwrap_err()).contains("has \"feature\" checked out"));
}

#[test]
fn an_import_creates_a_name_and_always_deletes_its_scratch_ref() {
    let (asked, answer) = drive(vec![
        said(0, "main\n"),
        said(0, ""),
        said(0, "abc\n"),
        said(128, ""),
        said(0, ""),
        said(0, ""),
    ]);
    let imported = answer.unwrap();
    assert_eq!((imported.tip.as_str(), imported.wrote), ("abc", Wrote::Created));
    assert_eq!(asked[1], vec!["fetch", "/src", "+refs/heads/feature:refs/onevcs/import/u"]);
    assert_eq!(asked[4], vec!["update-ref", "refs/heads/feature", "abc"]);
    assert_eq!(asked.last().unwrap(), &vec!["update-ref", "-d", "refs/onevcs/import/u"]);

    let (asked, answer) = drive(vec![said(0, "main\n"), said(1, ""), said(0, "")]);
    assert!(reason(answer.unwrap_err()).contains("has no branch \"feature\" to import"));
    assert_eq!(asked.last().unwrap(), &vec!["update-ref", "-d", "refs/onevcs/import/u"]);
}

#[test]
fn an_import_fast_forwards_only_a_descendant_and_refuses_a_rewrite() {
    let (_, answer) = drive(vec![
        said(0, "main\n"),
        said(0, ""),
        said(0, "new\n"),
        said(0, "old\n"),
        said(0, ""),
        said(0, ""),
        said(0, ""),
    ]);
    assert_eq!(answer.unwrap().wrote, Wrote::FastForwarded);
    let (asked, answer) = drive(vec![
        said(0, "main\n"),
        said(0, ""),
        said(0, "new\n"),
        said(0, "old\n"),
        said(1, ""),
        said(0, "0123456789abcdef\u{0}lost work\n\u{0}\u{1e}"),
        said(0, ""),
    ]);
    assert!(reason(answer.unwrap_err()).contains("1 commit(s) it holds are on no branch"));
    assert_eq!(asked.last().unwrap(), &vec!["update-ref", "-d", "refs/onevcs/import/u"]);
    assert!(asked.iter().all(|argv| argv[0] != "checkout" && argv[0] != "reset"));
}
