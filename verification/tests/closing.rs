use onevcs::closing::lines;

#[test]
fn every_form_github_reads_is_collected_once_in_order() {
    let messages = [
        "feat: add it\n\nSome prose that fixes nothing.\n\nCloses owner/name#1071\nfixes: #7",
        "fix: more\n\nThis resolves https://github.com/owner/name/issues/1071 and CLOSED #8.",
        "chore: tidy\n\nResolves #7, resolves other/repo#3",
    ];
    assert_eq!(
        lines(&messages),
        vec![
            "Closes owner/name#1071",
            "Fixes #7",
            "Closed #8",
            "Resolves other/repo#3",
        ]
    );
}

#[test]
fn nothing_that_only_resembles_a_reference_is_collected() {
    let messages = [
        "fix: the #12 thing\n\nprefixes #3\nCloses#4\ncloses #5abc\nfixes owner/name#\n\
         closes https://github.com/owner/name/pull/9\nclose issue #6",
    ];
    assert!(lines(&messages).is_empty(), "{:?}", lines(&messages));
}

#[test]
fn an_issue_on_another_host_keeps_its_url() {
    let messages = ["Fixes https://git.example.com/team/repo/issues/4."];
    assert_eq!(
        lines(&messages),
        vec!["Fixes https://git.example.com/team/repo/issues/4"]
    );
}

#[test]
fn a_windows_line_ending_does_not_end_up_in_the_reference() {
    let messages = ["intro\r\nresolved: #19\r\n"];
    assert_eq!(lines(&messages), vec!["Resolved #19"]);
}
