//! Where `onevcs` keeps everything that outlives one command.
//!
//! One root, overridable with `ONEVCS_HOME`, holding the registry document, the
//! advisory locks and merge-queue state, the per-run workspaces, the session
//! records, and the event streams and their artifacts.
//!
//! The environment is read at the edge; everything here is what the paths *are*
//! once it has been.

use vstd::prelude::*;

use crate::error::{invalid, Error, Result};
use crate::text::{self, spec_starts_with};

verus! {

/// The environment variable that relocates the whole state root.
pub const HOME_ENV: &'static str = "ONEVCS_HOME";

/// `Path::join` on this platform's separator: a name that is absolute replaces the
/// base, an empty base is no base at all, and one separator is put between them.
pub open spec fn spec_path_join(base: Seq<char>, name: Seq<char>) -> Seq<char> {
    if name.len() > 0 && name[0] == '/' {
        name
    } else if base.len() == 0 {
        name
    } else if base.last() == '/' {
        base + name
    } else {
        base + "/"@ + name
    }
}

/// `Path::join`.
pub fn path_join(base: &str, name: &str) -> (out: String)
    ensures
        out@ == spec_path_join(base@, name@),
{
    let names = text::chars_of(name);
    if names.len() > 0 && names[0] == '/' {
        return text::owned(name);
    }
    let bases = text::chars_of(base);
    if bases.len() == 0 {
        return text::owned(name);
    }
    if bases[bases.len() - 1] == '/' {
        return text::concat(base, name);
    }
    let mut out = text::concat(base, "/");
    out.append(name);
    out
}

/// The state root for this process, from what `ONEVCS_HOME` and the user's home
/// directory are.
///
/// `ONEVCS_HOME` when it is set to a non-empty value, otherwise `~/.onevcs`. An
/// empty override is rejected rather than silently treated as unset: it is far
/// more likely to be a variable that failed to expand than a deliberate choice,
/// and the fallback would write into the operator's real home.
pub fn root(configured: Option<&str>, home: Option<&str>) -> (r: Result<String>)
    ensures
        match configured {
            Some(value) => if value@.len() == 0 {
                r matches Err(e) && e is Invalid
            } else {
                r matches Ok(path) && path@ == value@
            },
            None => match home {
                Some(h) if h@.len() > 0 => r matches Ok(path) && path@ == spec_path_join(
                    h@,
                    ".onevcs"@,
                ),
                _ => r matches Err(e) && e is Invalid,
            },
        },
{
    match configured {
        Some(value) => {
            if value.is_empty() {
                return Err(
                    invalid(
                        text::owned(
                            "ONEVCS_HOME is set but empty; unset it or give it a directory",
                        ),
                    ),
                );
            }
            Ok(text::owned(value))
        },
        None => match home {
            Some(h) => {
                if h.is_empty() {
                    return Err(
                        invalid(
                            text::owned(
                                "cannot find a home directory; set ONEVCS_HOME to a directory",
                            ),
                        ),
                    );
                }
                Ok(path_join(h, ".onevcs"))
            },
            None => Err(
                invalid(
                    text::owned("cannot find a home directory; set ONEVCS_HOME to a directory"),
                ),
            ),
        },
    }
}

/// The registry document.
pub fn registry_path(root: &str) -> (out: String)
    ensures
        out@ == spec_path_join(root@, "registry.json"@),
{
    path_join(root, "registry.json")
}

/// The directory advisory locks and merge-queue state live in.
pub fn locks_dir(root: &str) -> (out: String)
    ensures
        out@ == spec_path_join(root@, "locks"@),
{
    path_join(root, "locks")
}

/// The directory session records live in.
pub fn sessions_dir(root: &str) -> (out: String)
    ensures
        out@ == spec_path_join(root@, "sessions"@),
{
    path_join(root, "sessions")
}

/// The directory per-run clones and worktrees are cut under.
pub fn workspaces_dir(root: &str) -> (out: String)
    ensures
        out@ == spec_path_join(root@, "workspaces"@),
{
    path_join(root, "workspaces")
}

/// The directory NDJSON event streams are written to.
pub fn streams_dir(root: &str) -> (out: String)
    ensures
        out@ == spec_path_join(root@, "streams"@),
{
    path_join(root, "streams")
}

/// The directory stored artifacts live in.
pub fn artifacts_dir(root: &str) -> (out: String)
    ensures
        out@ == spec_path_join(root@, "artifacts"@),
{
    path_join(root, "artifacts")
}

/// The directory each identity's release record lives in.
pub fn releases_dir(root: &str) -> (out: String)
    ensures
        out@ == spec_path_join(root@, "releases"@),
{
    path_join(root, "releases")
}

/// The directory a shell release probe is given a working directory under.
pub fn probes_dir(root: &str) -> (out: String)
    ensures
        out@ == spec_path_join(root@, "probes"@),
{
    path_join(root, "probes")
}

/// A leading `~/` expanded against the user's home directory.
///
/// Only a leading `~/`, and only where a home directory is known — anything else
/// is a literal path component, which is what a caller who wrote one meant.
pub open spec fn spec_expand_tilde(value: Seq<char>, home: Option<Seq<char>>) -> Seq<char> {
    match home {
        Some(h) if spec_starts_with(value, "~/"@) => spec_path_join(h, value.skip(2)),
        _ => value,
    }
}

/// Expand a leading `~` against this user's home directory.
pub fn expand_tilde(value: &str, home: Option<&str>) -> (out: String)
    ensures
        out@ == spec_expand_tilde(
            value@,
            match home {
                Some(h) => Some(h@),
                None => None,
            },
        ),
{
    let chars = text::chars_of(value);
    let prefix = text::chars_of("~/");
    proof {
        reveal_strlit("~/");
    }
    match home {
        Some(h) => {
            if text::starts_with(&chars, &prefix) {
                let rest = text::string_of(&chars, 2, chars.len());
                assert(rest@ =~= value@.skip(2));
                path_join(h, &rest)
            } else {
                text::owned(value)
            }
        },
        None => text::owned(value),
    }
}

/// Where the temporary file an atomic write goes through is named: beside the file,
/// hidden, and made unique by a caller-supplied token.
pub open spec fn spec_temporary_name(file_name: Seq<char>, unique: Seq<char>) -> Seq<char> {
    "."@ + file_name + "."@ + unique
}

/// The name of the temporary file a replacement of `file_name` is written through.
pub fn temporary_name(file_name: &str, unique: &str) -> (out: String)
    ensures
        out@ == spec_temporary_name(file_name@, unique@),
{
    let mut out = text::concat(".", file_name);
    out.append(".");
    out.append(unique);
    out
}

} // verus!
