//! The GitHub CLI as this crate reads it: which program answers, what counts as its
//! answer, and which identities name a repository on github.com.

use vstd::prelude::*;

use crate::error::{Error, Result};
use crate::text::{self, spec_join, spec_trim, views};

verus! {

/// The environment variable naming the `gh` program to run.
pub const PROGRAM_ENV: &'static str = "ONEVCS_GH";
/// Where checks are read from, when set.
pub const CHECK_SOURCE_ENV: &'static str = "ONEVCS_CHECK_SOURCE";
/// The bound on watching a change's checks.
pub const CHECKS_TIMEOUT_ENV: &'static str = "ONEVCS_CHECKS_TIMEOUT_SECONDS";
/// How often the checks are asked about.
pub const CHECKS_POLL_ENV: &'static str = "ONEVCS_CHECKS_POLL_SECONDS";
/// The host a GitHub identity names.
pub const HOST: &'static str = "github.com";

/// The program that answers for GitHub: the configured one where it is set and not
/// empty, and `gh` otherwise.
pub fn program(configured: Option<&str>) -> (out: String)
    ensures
        out@ == (match configured {
            Some(p) if p@.len() > 0 => p@,
            _ => "gh"@,
        }),
{
    match configured {
        Some(p) => if text::chars_of(p).len() > 0 {
            text::owned(p)
        } else {
            text::owned("gh")
        },
        None => text::owned("gh"),
    }
}

/// What one `gh` invocation answered.
#[derive(Debug, Clone)]
pub struct Answer {
    /// Its exit code, where it exited with one.
    pub code: Option<i32>,
    /// Its standard output.
    pub stdout: String,
    /// Its standard error.
    pub stderr: String,
}

/// The most specific thing an answer says: its trimmed error where there is one,
/// else its trimmed output.
pub open spec fn spec_detail(a: Answer) -> Seq<char> {
    if spec_trim(a.stderr@).len() == 0 {
        spec_trim(a.stdout@)
    } else {
        spec_trim(a.stderr@)
    }
}

impl Answer {
    /// The most specific thing an answer says.
    pub fn detail(&self) -> (out: String)
        ensures
            out@ == spec_detail(*self),
    {
        let stderr = text::trim(&self.stderr);
        if text::chars_of(&stderr).len() == 0 {
            text::trim(&self.stdout)
        } else {
            stderr
        }
    }
}

/// What a `gh` invocation that did not succeed is refused as.
pub open spec fn spec_gh_failed(args: Seq<Seq<char>>, a: Answer) -> Seq<char> {
    "gh "@ + spec_join(args, " "@) + " failed: "@ + spec_detail(a)
}

/// An invocation's output where it exited `0`, and otherwise a refusal naming it.
pub fn invoke(args: &[String], answer: Answer) -> (r: Result<String>)
    ensures
        answer.code == Some(0i32) ==> r is Ok && r.unwrap()@ == answer.stdout@,
        answer.code != Some(0i32) ==> r is Err && crate::git::spec_refused(
            r->Err_0,
            spec_gh_failed(views(args@), answer),
        ),
{
    if answer.code == Some(0) {
        return Ok(answer.stdout);
    }
    let joined = text::join(args, " ");
    let mut reason = text::concat3("gh ", &joined, " failed: ");
    let detail = answer.detail();
    reason.append(&detail);
    Err(Error::Invalid { reason })
}

/// The `owner/name` a `github.com/<owner>/<name>` identity names, and nothing for
/// any other: another host, a missing or empty part, or a part too many.
pub open spec fn spec_slug(identity: Seq<char>) -> Option<Seq<char>> {
    let parts = text::spec_split(identity, '/');
    if parts.len() == 3 && parts[0] == HOST@ && parts[1].len() > 0 && parts[2].len() > 0 {
        Some(parts[1] + "/"@ + parts[2])
    } else {
        None
    }
}

/// The `owner/name` a GitHub identity names.
pub fn slug(identity: &str) -> (r: Option<String>)
    ensures
        text::opt_view(r) == spec_slug(identity@),
{
    let parts = text::split(identity, '/');
    if parts.len() != 3 {
        return None;
    }
    if !text::str_eq(&parts[0], HOST) || text::chars_of(&parts[1]).len() == 0 || text::chars_of(
        &parts[2],
    ).len() == 0 {
        return None;
    }
    Some(text::concat3(&parts[1], "/", &parts[2]))
}

} // verus!
