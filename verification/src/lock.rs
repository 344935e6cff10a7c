//! Where a lock lives, and what is said about one that could not be taken.

use vstd::prelude::*;

use crate::home;
use crate::ids;
use crate::text::{self, spec_trim};

verus! {

/// The environment variable bounding how long a lock is waited for.
pub const TIMEOUT_ENV: &'static str = "ONEVCS_LOCK_TIMEOUT_SECONDS";

/// The file a lock on `identity` is taken on: its digest, under the locks directory,
/// so any identity is a safe file name.
pub open spec fn spec_path_for(locks_dir: Seq<char>, identity: Seq<char>) -> Seq<char> {
    home::spec_path_join(locks_dir, ids::spec_digest(identity) + ".lock"@)
}

/// The file a lock on `identity` is taken on.
pub fn path_for(locks_dir: &str, identity: &str) -> (out: String)
    ensures
        out@ == spec_path_for(locks_dir@, identity@),
{
    let digest = ids::digest(identity);
    let name = text::concat(&digest, ".lock");
    home::path_join(locks_dir, &name)
}

/// The identity a checkout's lock and merge queue are keyed by: its shared git
/// directory.
pub fn git_identity(common_dir: &str) -> (out: String)
    ensures
        out@ == "git:"@ + common_dir@,
{
    text::concat("git:", common_dir)
}

/// Who holds a lock, as its file records it: the recorded owner, or `unknown owner`
/// where the file could not be read or records nobody.
pub fn recorded_owner(contents: Option<&str>) -> (out: String)
    ensures
        out@ == (match contents {
            Some(c) if spec_trim(c@).len() > 0 => spec_trim(c@),
            _ => "unknown owner"@,
        }),
{
    match contents {
        Some(c) => {
            let value = text::trim(c);
            if text::chars_of(&value).len() > 0 {
                value
            } else {
                text::owned("unknown owner")
            }
        },
        None => text::owned("unknown owner"),
    }
}

/// What a lock's file records about its owner: the process that took it.
pub fn owner_record(pid: u32) -> (out: String)
    ensures
        out@ == "pid="@ + text::spec_decimal(pid as nat),
{
    let n = text::decimal(pid as u64);
    text::concat("pid=", &n)
}

} // verus!
