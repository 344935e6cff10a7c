use onevcs::error::Error;
use onevcs::gh::Answer;
use onevcs::host::{
    actions_checks, addressable_branch, authenticated_user, check, draft, from_rollup, head_sha, is_number, job,
    job_link, job_named, job_of_link, listed, listed_change, listed_changes, merged_sha,
    neither_log, no_log, opened_change, printed_url, required_answer, required_names,
    reported_sha, reported_url, rollup_checks, rollup_entries, ruled_checks, run_id, unlocated,
    unreadable, ChangeId, CheckAnswer, CheckSource, ContextAnswer, Job, JobAnswer, LinkAnswer,
    ListedChange, NameAnswer, Rollup, RuleAnswer, Sha,
};

const HASH: &str = "0123456789abcdef0123456789abcdef01234567";

fn some(value: &str) -> Option<String> {
    Some(value.to_owned())
}

fn reason(error: Error) -> String {
    match error {
        Error::Invalid { reason } => reason,
        other => panic!("expected a refusal, got {other:?}"),
    }
}

#[test]
fn a_reported_url_is_the_parsed_url_or_nothing() {
    assert_eq!(reported_url(&some("https://x/y")), some("https://x/y"));
    assert_eq!(reported_url(&some("HTTPS://Example.COM")), some("https://example.com/"));
    assert_eq!(reported_url(&some("not a url")), None);
    assert_eq!(reported_url(&some("")), None);
    assert_eq!(reported_url(&None), None);
}

#[test]
fn a_reported_commit_must_be_a_commit_hash() {
    assert_eq!(reported_sha(&None, "head_sha").unwrap(), None);
    assert_eq!(reported_sha(&some(""), "head_sha").unwrap(), None);
    assert_eq!(reported_sha(&some(HASH), "head_sha").unwrap(), Some(Sha(HASH.to_owned())));
    assert_eq!(
        reason(reported_sha(&some("main"), "head_sha").unwrap_err()),
        "gh reported \"main\" as the head_sha of a check, and that is not a commit hash, so which commit the check is attached to cannot be decided"
    );
    assert_eq!(head_sha(&some(HASH), "{}").unwrap(), Sha(HASH.to_owned()));
    assert_eq!(
        reason(head_sha(&None, "{}").unwrap_err()),
        "gh returned a change request with no head: {}"
    );
}

#[test]
fn a_merged_change_names_the_commit_it_landed_as() {
    let url = "https://github.com/o/r/pull/7";
    assert_eq!(merged_sha(&some("OPEN"), &None, url).unwrap(), None);
    assert_eq!(merged_sha(&some("MERGED"), &some(HASH), url).unwrap(), Some(Sha(HASH.to_owned())));
    assert_eq!(
        reason(merged_sha(&some("merged"), &some(""), url).unwrap_err()),
        "gh pr view reports https://github.com/o/r/pull/7 merged without naming the commit it merged as"
    );
    assert_eq!(
        reason(merged_sha(&None, &None, url).unwrap_err()),
        "gh pr view returned no state for https://github.com/o/r/pull/7"
    );
    assert!(draft(Some(true), url).unwrap());
    assert!(!draft(Some(false), url).unwrap());
    assert_eq!(
        reason(draft(None, url).unwrap_err()),
        "gh pr view answered about https://github.com/o/r/pull/7 without saying whether it is a draft, so whether the host is holding it cannot be read"
    );
}

#[test]
fn an_actions_listing_is_held_to_its_count() {
    assert!(listed(Some(2), Some(2), "jobs", "workflow run 5", "{}").is_ok());
    assert!(listed(Some(3), Some(2), "jobs", "workflow run 5", "{}").is_ok());
    assert_eq!(
        reason(listed(Some(1), Some(12), "jobs", "workflow run 5", "{}").unwrap_err()),
        "the Actions API reports 12 jobs on workflow run 5 and returned 1, so this build has not been shown all of them"
    );
    assert_eq!(
        reason(listed(Some(1), None, "jobs", "workflow run 5", "{}").unwrap_err()),
        "the Actions API did not say how many jobs there are on workflow run 5: {}"
    );
    assert_eq!(
        reason(listed(None, Some(1), "jobs", "workflow run 5", "[]").unwrap_err()),
        "the Actions API answered about workflow run 5 with something that lists no jobs: []"
    );
}

#[test]
fn unreadable_check_sources_quote_both_refusals() {
    let rollup = Error::Invalid { reason: "no rollup".to_owned() };
    let actions = Error::Invalid { reason: "no actions".to_owned() };
    let said = reason(unreadable("o/r", "https://github.com/o/r/pull/7", &rollup, &actions));
    assert!(said.starts_with(
        "neither of GitHub's check sources could be read for https://github.com/o/r/pull/7, so what its checks say is unknown rather than empty. Its check rollup answered: "
    ));
    assert!(said.contains("no rollup"));
    assert!(said.contains("no actions"));
    assert!(said.contains("Grant this credential `Actions: Read` on o/r to read"));
}

fn rollup_entry(name: Option<&str>, context: Option<&str>, status: Option<&str>) -> CheckAnswer {
    CheckAnswer {
        name: name.map(str::to_owned),
        context: context.map(str::to_owned),
        status: status.map(str::to_owned),
        conclusion: some("SUCCESS"),
        details_url: some("https://ci.example/run/1"),
        answer: "{entry}".to_owned(),
    }
}

#[test]
fn a_rollup_entry_is_named_and_lowercased() {
    let url = "https://github.com/o/r/pull/7";
    let required = vec!["build".to_owned()];
    let head = Some(Sha(HASH.to_owned()));
    let named = check(&rollup_entry(Some("build"), None, Some("COMPLETED")), url, &required, head.clone()).unwrap();
    assert_eq!(named.name, "build");
    assert_eq!(named.status, "completed");
    assert_eq!(named.conclusion.as_deref(), Some("success"));
    assert!(named.required);
    assert_eq!(named.head, head);
    assert_eq!(named.url.as_deref(), Some("https://ci.example/run/1"));
    let by_context = check(&rollup_entry(Some(""), Some("lint"), Some("pending")), url, &required, None).unwrap();
    assert_eq!(by_context.name, "lint");
    assert!(!by_context.required);
    assert_eq!(
        reason(check(&rollup_entry(None, None, Some("x")), url, &required, None).unwrap_err()),
        "gh pr view returned a check on https://github.com/o/r/pull/7 with no context: {entry}"
    );
    assert_eq!(
        reason(check(&rollup_entry(Some("build"), None, None), url, &required, None).unwrap_err()),
        "gh pr view returned a check on https://github.com/o/r/pull/7 with no status: {entry}"
    );
}

fn job_entry(id: Option<u64>, name: Option<&str>, status: Option<&str>) -> JobAnswer {
    JobAnswer {
        id,
        name: name.map(str::to_owned),
        status: status.map(str::to_owned),
        conclusion: None,
        html_url: None,
        answer: "{job}".to_owned(),
    }
}

#[test]
fn an_actions_job_must_say_what_it_is() {
    let url = "https://github.com/o/r/pull/7";
    let read = job(&job_entry(Some(9), Some("test"), Some("In_Progress")), url, None).unwrap();
    assert_eq!(read.id, 9);
    assert_eq!(read.name, "test");
    assert_eq!(read.status, "in_progress");
    assert_eq!(read.conclusion, None);
    assert_eq!(
        reason(job(&job_entry(None, Some("test"), Some("queued")), url, None).unwrap_err()),
        "the Actions API returned a job on https://github.com/o/r/pull/7 with no id, so its log cannot be asked for: {job}"
    );
    assert_eq!(
        reason(job(&job_entry(Some(9), None, Some("queued")), url, None).unwrap_err()),
        "the Actions API returned a job on https://github.com/o/r/pull/7 with no name: {job}"
    );
    assert_eq!(
        reason(job(&job_entry(Some(9), Some("test"), None), url, None).unwrap_err()),
        "the Actions API returned a job on https://github.com/o/r/pull/7 with no status: {job}"
    );
}

fn a_job(name: &str) -> Job {
    Job { id: 1, name: name.to_owned(), status: "completed".to_owned(), conclusion: some("success"), head: None, url: None }
}

#[test]
fn actions_checks_block_where_the_rules_name_them() {
    let none = actions_checks(Vec::new(), &["build".to_owned()]);
    assert!(none.checks.is_empty());
    assert_eq!(none.sources, vec![CheckSource::Actions]);
    let two = actions_checks(vec![a_job("build"), a_job("docs")], &["build".to_owned()]);
    assert_eq!(two.sources, vec![CheckSource::Actions, CheckSource::BranchRules]);
    assert_eq!(two.checks.len(), 2);
    assert_eq!(two.checks[0].name, "build");
    assert!(two.checks[0].required);
    assert_eq!(two.checks[1].name, "docs");
    assert!(!two.checks[1].required);
    assert!(!two.complete());
}

fn context(name: Option<&str>) -> ContextAnswer {
    ContextAnswer { context: name.map(str::to_owned), answer: "{context}".to_owned() }
}

fn rule(kind: &str, required: Option<Vec<ContextAnswer>>) -> RuleAnswer {
    RuleAnswer { kind: some(kind), required, answer: "{rule}".to_owned() }
}

#[test]
fn the_rulesets_name_the_checks_that_block_a_merge() {
    let url = "https://github.com/o/r/pull/7";
    let rules = vec![
        rule("deletion", None),
        rule("required_status_checks", Some(vec![context(Some("test")), context(Some("build"))])),
        rule("required_status_checks", Some(vec![context(Some("build"))])),
    ];
    assert_eq!(
        ruled_checks(url, "main", true, Some(&rules), "[]").unwrap(),
        vec!["build".to_owned(), "test".to_owned()]
    );
    assert!(ruled_checks(url, "main", true, Some(&[]), "[]").unwrap().is_empty());
    assert_eq!(
        reason(ruled_checks(url, "main", true, Some(&[rule("required_status_checks", None)]), "[]").unwrap_err()),
        "gh pr checks --required answered about https://github.com/o/r/pull/7 with {rule}, so a check it reported does not say whether it blocks the merge"
    );
    let unnamed = vec![rule("required_status_checks", Some(vec![context(Some(""))]))];
    assert_eq!(
        reason(ruled_checks(url, "main", true, Some(&unnamed), "[]").unwrap_err()),
        "gh pr checks --required answered about https://github.com/o/r/pull/7 with {context}, so a check it reported does not say whether it blocks the merge"
    );
    assert_eq!(
        reason(ruled_checks(url, "main", true, None, "{}").unwrap_err()),
        "the rules on https://github.com/o/r/pull/7's base branch \"main\" came back as something that is not a list of them, so which of its checks block the merge cannot be read from it: {}"
    );
    assert_eq!(
        reason(ruled_checks(url, "ma..in", false, Some(&rules), "[]").unwrap_err()),
        "the base branch \"ma..in\" is a name git would not accept"
    );
}

#[test]
fn a_check_link_names_its_job_by_the_last_job_segment() {
    assert_eq!(
        job_of_link("ci", "https://github.com/o/r/actions/runs/5/job/77").unwrap(),
        "77"
    );
    assert_eq!(job_of_link("ci", "https://x/job/1/job/23").unwrap(), "23");
    assert_eq!(
        reason(job_of_link("ci", "https://x/job/").unwrap_err()),
        "the host says check \"ci\" ran at \"https://x/job/\", which names no job this build can ask for a log"
    );
    assert!(job_of_link("ci", "https://x/job/12a").is_err());
    assert!(job_of_link("ci", "https://x/runs/12").is_err());
}

#[test]
fn the_signed_in_user_is_the_trimmed_login() {
    assert_eq!(authenticated_user("  octocat\n").unwrap(), "octocat");
    assert_eq!(reason(authenticated_user(" \n").unwrap_err()), "gh reported no authenticated user");
}

#[test]
fn an_opened_change_is_numbered_by_the_address_gh_printed() {
    let printed = "Creating pull request for topic into main\n\n  https://github.com/o/r/pull/42  \n";
    assert_eq!(printed_url(printed).unwrap(), "https://github.com/o/r/pull/42");
    let (id, url) = opened_change(printed).unwrap();
    assert_eq!(id, ChangeId("42".to_owned()));
    assert_eq!(url, "https://github.com/o/r/pull/42");
    assert_eq!(
        opened_change("https://first/1\nhttps://github.com/o/r/pull/7\nWarning: x").unwrap().0,
        ChangeId("7".to_owned())
    );
    assert_eq!(
        reason(opened_change("nothing here").unwrap_err()),
        "gh pr create printed no URL: \"nothing here\""
    );
    assert_eq!(
        reason(opened_change("https://github.com/o/r/pulls").unwrap_err()),
        "gh pr create printed \"https://github.com/o/r/pulls\", which names no change"
    );
    assert!(reason(opened_change("http://[bad").unwrap_err())
        .starts_with("gh pr create printed \"http://[bad\", not a URL: "));
    assert!(is_number("0012"));
    assert!(!is_number(""));
    assert!(!is_number("12a"));
}

fn listed_item(number: Option<u64>, url: Option<&str>, head: Option<&str>) -> ListedChange {
    ListedChange {
        number,
        url: url.map(str::to_owned),
        head_ref_oid: head.map(str::to_owned),
        answer: "{item}".to_owned(),
    }
}

#[test]
fn a_listed_change_needs_an_address_a_number_and_a_head() {
    let item = listed_item(Some(9), Some("https://github.com/o/r/pull/9"), Some(HASH));
    let change = listed_change(&item, "main", "[...]").unwrap();
    assert_eq!(change.id, ChangeId("9".to_owned()));
    assert_eq!(change.url, "https://github.com/o/r/pull/9");
    assert_eq!(change.head_sha, Sha(HASH.to_owned()));
    assert_eq!(change.base, "main");
    assert!(reason(listed_change(&listed_item(Some(9), None, Some(HASH)), "main", "[...]").unwrap_err())
        .starts_with("gh pr list returned \"\", not a URL: "));
    assert_eq!(
        reason(listed_change(&listed_item(None, Some("https://x/1"), Some(HASH)), "main", "[...]").unwrap_err()),
        "gh pr list returned no number: \"[...]\""
    );
    assert_eq!(
        reason(listed_change(&listed_item(Some(1), Some("https://x/1"), None), "main", "[...]").unwrap_err()),
        "gh returned a change request with no head: {item}"
    );
    let items = vec![item.clone(), listed_item(Some(10), Some("https://github.com/o/r/pull/10"), Some(HASH))];
    let changes = listed_changes(Some(&items), "main", "[...]").unwrap();
    assert_eq!(changes.len(), 2);
    assert_eq!(changes[1].id, ChangeId("10".to_owned()));
    assert!(listed_changes(Some(&[]), "main", "[]").unwrap().is_empty());
    assert_eq!(
        reason(listed_changes(None, "main", "{}").unwrap_err()),
        "gh pr list returned \"{}\", not a list"
    );
}

fn gh_answer(code: Option<i32>, stdout: &str, stderr: &str) -> Answer {
    Answer { code, stdout: stdout.to_owned(), stderr: stderr.to_owned() }
}

#[test]
fn a_required_checks_answer_is_read_or_refused() {
    let url = "https://github.com/o/r/pull/7";
    assert!(required_answer(url, &gh_answer(Some(0), "[]", "")).unwrap());
    assert!(required_answer(url, &gh_answer(Some(8), "[]", "")).unwrap());
    assert!(!required_answer(url, &gh_answer(Some(1), "", "no required checks reported on the 'topic' branch")).unwrap());
    assert_eq!(
        reason(required_answer(url, &gh_answer(Some(1), "", "no checks reported on the 'topic' branch\n")).unwrap_err()),
        "the host reports no check at all yet on the head of https://github.com/o/r/pull/7 (no checks reported on the 'topic' branch), which is not the same as a repository that declares none required — it is what a head pushed moments ago looks like — so whether anything blocks the merge cannot be read from it"
    );
    assert_eq!(
        reason(required_answer(url, &gh_answer(Some(4), "", " HTTP 403 ")).unwrap_err()),
        "gh pr checks --required answered about https://github.com/o/r/pull/7 with HTTP 403, so a check it reported does not say whether it blocks the merge"
    );
    let names = vec![
        NameAnswer { name: some("test"), answer: "{a}".to_owned() },
        NameAnswer { name: some("build"), answer: "{b}".to_owned() },
        NameAnswer { name: some("test"), answer: "{c}".to_owned() },
    ];
    assert_eq!(required_names(url, Some(&names), "[]").unwrap(), vec!["build".to_owned(), "test".to_owned()]);
    let nameless = vec![NameAnswer { name: some(""), answer: "{d}".to_owned() }];
    assert_eq!(
        reason(required_names(url, Some(&nameless), "[]").unwrap_err()),
        "gh pr checks --required answered about https://github.com/o/r/pull/7 with {d}, so a check it reported does not say whether it blocks the merge"
    );
    assert_eq!(
        reason(required_names(url, None, "{}").unwrap_err()),
        "gh pr checks --required answered about https://github.com/o/r/pull/7 with {}, so a check it reported does not say whether it blocks the merge"
    );
}

#[test]
fn a_check_log_is_found_through_the_link_of_its_first_entry() {
    let url = "https://github.com/o/r/pull/7";
    let entries = vec![
        LinkAnswer { name: some("lint"), link: some("https://x/job/1") },
        LinkAnswer { name: some("test"), link: some("https://x/job/2") },
        LinkAnswer { name: some("test"), link: some("https://x/job/3") },
    ];
    assert_eq!(job_link("test", url, Some(&entries), "[]").unwrap(), "https://x/job/2");
    assert_eq!(
        reason(job_link("docs", url, Some(&entries), "[]").unwrap_err()),
        "the host reports no job for check \"docs\" on https://github.com/o/r/pull/7"
    );
    let linkless = vec![LinkAnswer { name: some("test"), link: None }, entries[1].clone()];
    assert!(job_link("test", url, Some(&linkless), "[]").is_err());
    assert_eq!(
        reason(job_link("test", url, None, "{}").unwrap_err()),
        "gh pr checks returned a non-list of checks on https://github.com/o/r/pull/7, so where check \"test\" ran cannot be read from it: {}"
    );
    assert_eq!(
        reason(unlocated("test", url, &gh_answer(Some(1), "", "boom"))),
        "gh pr checks would not say where check \"test\" on https://github.com/o/r/pull/7 ran: boom"
    );
    let rollup = Error::Invalid { reason: "first".to_owned() };
    let actions = Error::Invalid { reason: "second".to_owned() };
    let both = reason(neither_log("test", url, &rollup, &actions));
    assert!(both.starts_with("neither of GitHub's check sources would produce the log of check \"test\" on https://github.com/o/r/pull/7: gh pr checks answered "));
    assert!(both.contains("first") && both.contains(", and the Actions API answered "));
    assert!(reason(no_log("test", url, &rollup))
        .starts_with("the host could not produce a log for check \"test\" on https://github.com/o/r/pull/7: "));
}

#[test]
fn actions_jobs_are_found_by_name_and_runs_by_id() {
    let url = "https://github.com/o/r/pull/7";
    let mut second = a_job("test");
    second.id = 5;
    let mut third = a_job("test");
    third.id = 6;
    let jobs = vec![a_job("build"), second, third];
    assert_eq!(job_named(&jobs, "test", url).unwrap(), 5);
    assert_eq!(
        reason(job_named(&jobs, "docs", url).unwrap_err()),
        "GitHub Actions reports no job named \"docs\" on the head commit of https://github.com/o/r/pull/7"
    );
    assert_eq!(run_id(Some(3), url, "{run}").unwrap(), 3);
    assert_eq!(
        reason(run_id(None, url, "{run}").unwrap_err()),
        "the Actions API reported a workflow run on https://github.com/o/r/pull/7 with no id: {run}"
    );
}

#[test]
fn a_rollup_is_read_entry_by_entry() {
    let url = "https://github.com/o/r/pull/7";
    assert!(rollup_entries(url, Rollup::Null).unwrap().is_empty());
    assert_eq!(
        reason(rollup_entries(url, Rollup::Absent).unwrap_err()),
        "gh pr view reported no checks at all on https://github.com/o/r/pull/7"
    );
    assert_eq!(
        reason(rollup_entries(url, Rollup::Unlisted("{}".to_owned())).unwrap_err()),
        "gh pr view returned a non-list rollup: {}"
    );
    let entries = rollup_entries(
        url,
        Rollup::Listed(vec![rollup_entry(Some("build"), None, Some("QUEUED")), rollup_entry(None, Some("lint"), Some("completed"))]),
    )
    .unwrap();
    let head = Some(Sha(HASH.to_owned()));
    let checks = rollup_checks(&entries, url, &["lint".to_owned()], head.clone()).unwrap();
    assert_eq!(checks.len(), 2);
    assert_eq!(checks[0].status, "queued");
    assert!(!checks[0].required);
    assert!(checks[1].required);
    assert_eq!(checks[1].head, head);
    let answer = from_rollup(checks);
    assert!(answer.complete());
    assert_eq!(answer.sources, vec![CheckSource::StatusChecks]);
    let broken = vec![rollup_entry(Some("build"), None, Some("queued")), rollup_entry(None, None, None)];
    assert_eq!(
        reason(rollup_checks(&broken, url, &[], None).unwrap_err()),
        "gh pr view returned a check on https://github.com/o/r/pull/7 with no context: {entry}"
    );
}

#[test]
fn a_branch_git_refuses_addresses_nothing() {
    assert!(addressable_branch("topic", "the head branch", true).is_ok());
    assert_eq!(
        reason(addressable_branch("a..b", "the head branch", false).unwrap_err()),
        "the head branch \"a..b\" is a name git would not accept"
    );
}
