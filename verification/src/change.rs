//! A session's own change request, read and written after it exists.
//!
//! Every verb here is addressed at the session's own change request — the one its
//! publication opened from the branch it pushes into the base it resolves — so no
//! caller names a URL. None of them opens one: a session with no change request
//! is refused, naming the publication that opens it.

use vstd::prelude::*;
use crate::error::{Error, Result};
use crate::git;
use crate::guidance;
use crate::host::{ChangeId, ChangeRequest};
use crate::text::{self, views};

verus! {

/// What a caller writes to a change request's description: the body verbatim, and a
/// title to replace the change request's, or none to leave it.
#[derive(Debug, Clone, PartialEq, Eq)]
pub struct ChangeDescription {
    /// The title to replace the change request's with, or none to leave it.
    pub title: Option<String>,
    /// The body, verbatim.
    pub body: String,
}

/// A session's change request, as the host holds it after whatever was asked of it.
#[derive(Debug, Clone, PartialEq, Eq)]
pub struct SessionChange {
    /// Where a human reads it.
    pub url: String,
    /// The host's identifier for it.
    pub id: ChangeId,
    /// The branch it targets.
    pub base: String,
    /// Whether the host is holding it as a draft.
    pub draft: bool,
    /// Its title, as the host holds it.
    pub title: String,
    /// Its body, as the host holds it — empty where it carries none.
    pub body: String,
}

/// What a session with no change request is refused as: naming the publication that
/// opens one as a draft, since nothing here opens one.
pub open spec fn spec_no_change_request(token: Seq<char>, branch: Seq<char>, base: Seq<char>) -> Seq<
    char,
> {
    "session "@ + token + " has no open change request from "@ + text::spec_debug_quoted(branch)
        + " into "@ + text::spec_debug_quoted(base)
        + " on the host, so there is nothing to act on. Nothing here opens one: publish the session first — `"@
        + guidance::spec_command(seq!["onevcs"@, "publish"@, token, "--draft"@])
        + "` opens it as a draft the session holds while its work is still being made"@
}

/// The session's change request: the first open one the host found from its branch
/// into its base (`found`), or the refusal that there is none.
pub fn require(token: &str, branch: &str, base: &str, found: Vec<ChangeRequest>) -> (r: Result<
    ChangeRequest,
>)
    ensures
        found@.len() > 0 ==> r is Ok && r->Ok_0 == found@[0],
        found@.len() == 0 ==> r is Err && git::spec_refused(
            r->Err_0,
            spec_no_change_request(token@, branch@, base@),
        ),
{
    let mut found = found;
    if found.len() > 0 {
        return Ok(found.swap_remove(0));
    }
    let argv = vec![text::owned("onevcs"), text::owned("publish"), text::owned(token), text::owned("--draft")];
    proof {
        assert(views(argv@) =~= seq!["onevcs"@, "publish"@, token@, "--draft"@]);
    }
    let publish = guidance::command_of(&argv);
    let mut reason = text::concat3("session ", token, " has no open change request from ");
    let b = text::debug_quoted(branch);
    reason.append(&b);
    reason.append(" into ");
    let into = text::debug_quoted(base);
    reason.append(&into);
    reason.append(" on the host, so there is nothing to act on. Nothing here opens one: publish the session first — `",
    );
    reason.append(&publish);
    reason.append("` opens it as a draft the session holds while its work is still being made",
    );
    Err(Error::Invalid { reason })
}

/// The change request as the host holds it now: its address, identifier and base,
/// whether the host holds it as a draft, and the description it read back.
pub fn session_change(change: &ChangeRequest, draft: bool, title: String, body: String) -> (out:
    SessionChange)
    ensures
        out.url@ == change.url@,
        out.id.0@ == change.id.0@,
        out.base@ == change.base@,
        out.draft == draft,
        out.title == title,
        out.body == body,
{
    SessionChange {
        url: change.url.clone(),
        id: ChangeId(change.id.0.clone()),
        base: change.base.clone(),
        draft,
        title,
        body,
    }
}

} // verus!
