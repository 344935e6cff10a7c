//! The branch prefix: one string this host puts in front of every branch `onevcs`
//! **cuts**, and the sanitizer that turns a caller's proposed name into one git
//! accepts.
//!
//! Resolved highest layer first: the request's own override, then the environment,
//! then the host's file, then the shipped default of *no prefix*. Each resolved value
//! names the layer that decided it.

use vstd::prelude::*;

use crate::error::{Error, Result};
use crate::home;
use crate::text::{self, spec_join, views};

verus! {

/// The version of the branches file this build writes, and the oldest it reads.
pub const VERSION: u32 = 1;

/// The environment variable that overrides the resolved branch prefix for one
/// process.
pub const PREFIX_ENV: &'static str = "ONEVCS_BRANCH_PREFIX";

/// The name a prefix is checked against on its own, before any branch is cut.
pub const PROBE: &'static str = "branch";

/// A branches file, as it is stored on disk.
#[derive(Debug, Clone, PartialEq, Eq)]
pub struct BranchesFile {
    /// The schema version: `1` is the shape declared here.
    pub version: u32,
    /// What every branch this host cuts is prefixed with; empty adds nothing.
    pub prefix: String,
}

impl Default for BranchesFile {
    /// The shipped default, which is a host with no file at all.
    fn default() -> (file: Self)
        ensures
            file.version == VERSION,
            file.prefix@ == Seq::<char>::empty(),
    {
        BranchesFile { version: VERSION, prefix: String::new() }
    }
}

/// Where a host configures its branch prefix: `branches.yml` under the state root.
pub fn default_path(root: &str) -> (out: String)
    ensures
        out@ == home::spec_path_join(root@, "branches.yml"@),
{
    home::path_join(root, "branches.yml")
}

/// What a branches file declaring a version below this build's is refused as.
pub open spec fn spec_too_old(path: Seq<char>, declared: nat) -> Seq<char> {
    "the branches file at "@ + path + " declares version "@ + text::spec_decimal(declared)
        + "; this build reads version 1 and newer"@
}

/// Settle the version a branches document declares: only a version below this one
/// is refused, and a later one is read as this shape.
pub fn check_version(path: &str, declared: Option<u64>) -> (r: Result<()>)
    ensures
        match declared {
            Some(v) if v < VERSION => r is Err && crate::git::spec_refused(
                r->Err_0,
                spec_too_old(path@, v as nat),
            ),
            _ => r is Ok,
        },
{
    match declared {
        Some(v) => {
            if v < VERSION as u64 {
                let mut reason = text::concat3("the branches file at ", path, " declares version ");
                let n = text::decimal(v);
                reason.append(&n);
                reason.append("; this build reads version 1 and newer");
                Err(Error::Invalid { reason })
            } else {
                Ok(())
            }
        },
        None => Ok(()),
    }
}

/// Where a host file came from: the file at a path, or the shipped default.
#[derive(Debug, Clone, PartialEq, Eq)]
pub enum FileSource {
    /// The file at this path.
    File(String),
    /// No file: what this build ships.
    Shipped,
}

/// A resolved value and the layer that decided it.
#[derive(Debug, Clone, PartialEq, Eq)]
pub struct Sourced {
    /// The value.
    pub value: String,
    /// The layer it came from, as a report names it.
    pub from: String,
}

/// The prefix a branch is put behind, and who set it: the request's override, then
/// the environment's value (trimmed), then the file, then the shipped default.
pub open spec fn spec_resolve(
    file: Seq<char>,
    source: FileSource,
    environment: Option<Seq<char>>,
    over: Option<Seq<char>>,
) -> (Seq<char>, Seq<char>) {
    match over {
        Some(prefix) => (prefix, "--branch-prefix on this open"@),
        None => match environment {
            Some(raw) => (text::spec_trim(raw), PREFIX_ENV@ + " in the environment"@),
            None => (
                file,
                match source {
                    FileSource::File(path) => "prefix: of "@ + path@,
                    FileSource::Shipped => "the shipped default"@,
                },
            ),
        },
    }
}

/// Resolve the prefix every branch this open cuts is put in front of, highest layer
/// winning. Host-wide: the prefix belongs to the person using the host rather than
/// to any repository.
pub fn resolve(
    file: &BranchesFile,
    source: &FileSource,
    environment: Option<&str>,
    over: Option<&str>,
) -> (r: Sourced)
    ensures
        (r.value@, r.from@) == spec_resolve(
            file.prefix@,
            *source,
            text::opt_str_view(environment),
            text::opt_str_view(over),
        ),
{
    match over {
        Some(prefix) => Sourced {
            value: text::owned(prefix),
            from: text::owned("--branch-prefix on this open"),
        },
        None => match environment {
            Some(raw) => Sourced {
                value: text::trim(raw),
                from: text::concat(PREFIX_ENV, " in the environment"),
            },
            None => Sourced {
                value: file.prefix.clone(),
                from: match source {
                    FileSource::File(path) => text::concat("prefix: of ", path),
                    FileSource::Shipped => text::owned("the shipped default"),
                },
            },
        },
    }
}

/// The name a prefix is checked by: the prefix in front of a placeholder branch.
pub fn probe_name(prefix: &Sourced) -> (out: String)
    ensures
        out@ == prefix.value@ + PROBE@,
{
    text::concat(&prefix.value, PROBE)
}

/// What an unusable prefix is refused as.
pub open spec fn spec_unusable(value: Seq<char>, from: Seq<char>) -> Seq<char> {
    "the branch prefix "@ + text::spec_debug_quoted(value) + " (from "@ + from
        + ") cannot start a branch name git accepts: it would cut "@ + text::spec_debug_quoted(
        value + PROBE@,
    ) + ", which git refuses"@
}

/// Refuse a prefix no branch name can be built on, naming the layer that set it:
/// `accepted` is git's verdict on [`probe_name`]. An empty prefix adds nothing and
/// is never refused.
pub fn usable(prefix: &Sourced, accepted: bool) -> (r: Result<()>)
    ensures
        prefix.value@.len() == 0 || accepted ==> r is Ok,
        prefix.value@.len() > 0 && !accepted ==> r is Err && crate::git::spec_refused(
            r->Err_0,
            spec_unusable(prefix.value@, prefix.from@),
        ),
{
    if text::chars_of(&prefix.value).len() == 0 || accepted {
        return Ok(());
    }
    let mut reason = text::owned("the branch prefix ");
    let quoted = text::debug_quoted(&prefix.value);
    reason.append(&quoted);
    reason.append(" (from ");
    reason.append(&prefix.from);
    reason.append(") cannot start a branch name git accepts: it would cut ");
    let spelled = probe_name(prefix);
    let shown = text::debug_quoted(&spelled);
    reason.append(&shown);
    reason.append(", which git refuses");
    Err(Error::Invalid { reason })
}

// ---------------------------------------------------------------------------
// Sanitizing a proposed name
// ---------------------------------------------------------------------------

/// A character a sanitized name keeps as it stands.
pub open spec fn spec_kept(c: char) -> bool {
    text::spec_is_ascii_alnum(c) || c == '-' || c == '_' || c == '.' || c == '/'
}

/// A proposal with every character outside `A-Za-z0-9-_./` made `-`.
pub open spec fn spec_mapped(s: Seq<char>) -> Seq<char> {
    s.map_values(|c: char| if spec_kept(c) { c } else { '-' })
}

/// A component with each run of `-` and each run of `.` collapsed to one.
pub open spec fn spec_collapse(s: Seq<char>) -> Seq<char>
    decreases s.len(),
{
    if s.len() == 0 {
        s
    } else {
        let before = spec_collapse(s.drop_last());
        let c = s.last();
        if (c == '-' || c == '.') && before.len() > 0 && before.last() == c {
            before
        } else {
            before.push(c)
        }
    }
}

/// A component with every `.lock` ending taken off, each time with the `-` and `.`
/// it leaves at the end.
pub open spec fn spec_strip_locks(s: Seq<char>) -> Seq<char>
    decreases s.len(),
{
    if text::spec_ends_with(s, ".lock"@) {
        proof {
            reveal_strlit(".lock");
            text::lemma_trailing(s.take(s.len() - 5), text::either('-', '.'));
        }
        spec_strip_locks(text::spec_trim_end_by(s.take(s.len() - 5), text::either('-', '.')))
    } else {
        s
    }
}

/// One slash-separated component of a sanitized name, or `None` where nothing git
/// accepts there is left: runs collapsed, `-` and `.` trimmed from both ends, and
/// `.lock` endings taken off.
pub open spec fn spec_component(raw: Seq<char>) -> Option<Seq<char>> {
    let trimmed = spec_strip_locks(text::spec_trim_by(spec_collapse(raw), text::either('-', '.')));
    if trimmed.len() > 0 {
        Some(trimmed)
    } else {
        None
    }
}

/// Every component that survives, in order.
pub open spec fn spec_components(parts: Seq<Seq<char>>) -> Seq<Seq<char>>
    decreases parts.len(),
{
    if parts.len() == 0 {
        seq![]
    } else {
        match spec_component(parts.last()) {
            Some(c) => spec_components(parts.drop_last()).push(c),
            None => spec_components(parts.drop_last()),
        }
    }
}

/// The branch name a caller's proposed one becomes, or `None` where nothing a branch
/// name can be made of is left.
pub open spec fn spec_sanitize(proposed: Seq<char>) -> Option<Seq<char>> {
    let name = spec_join(spec_components(text::spec_split(spec_mapped(proposed), '/')), "/"@);
    if name.len() > 0 {
        Some(name)
    } else {
        None
    }
}

fn collapse(raw: &str) -> (out: String)
    ensures
        out@ == spec_collapse(raw@),
{
    let chars = text::chars_of(raw);
    let mut out: Vec<char> = Vec::new();
    let mut i: usize = 0;
    while i < chars.len()
        invariant
            i <= chars@.len(),
            chars@ == raw@,
            out@ == spec_collapse(chars@.take(i as int)),
        decreases chars.len() - i,
    {
        let c = chars[i];
        proof {
            assert(chars@.take(i + 1).drop_last() =~= chars@.take(i as int));
        }
        let repeated = (c == '-' || c == '.') && out.len() > 0 && out[out.len() - 1] == c;
        if !repeated {
            out.push(c);
        }
        i = i + 1;
    }
    proof {
        assert(chars@.take(chars@.len() as int) =~= chars@);
    }
    text::string_from(&out)
}

fn strip_locks(s: String) -> (out: String)
    ensures
        out@ == spec_strip_locks(s@),
    decreases s@.len(),
{
    let chars = text::chars_of(&s);
    let lock = text::chars_of(".lock");
    if text::ends_with(&chars, &lock) {
        proof {
            reveal_strlit(".lock");
        }
        let rest = text::string_of(&chars, 0, chars.len() - 5);
        assert(rest@ =~= s@.take(s@.len() - 5));
        let trimmed = text::trim_end_either(&rest, '-', '.');
        proof {
            assert(trimmed@.len() <= rest@.len()) by {
                text::lemma_trailing(rest@, text::either('-', '.'));
            }
        }
        strip_locks(trimmed)
    } else {
        s
    }
}

/// One slash-separated component of a sanitized name.
pub fn component(raw: &str) -> (r: Option<String>)
    ensures
        text::opt_view(r) == spec_component(raw@),
{
    let collapsed = collapse(raw);
    let trimmed = text::trim_either(&collapsed, '-', '.');
    let stripped = strip_locks(trimmed);
    if text::chars_of(&stripped).len() > 0 {
        Some(stripped)
    } else {
        None
    }
}

/// The branch name a caller's proposed one becomes, or `None` where nothing is left.
/// The prefix is applied to what this answers, never to what was proposed.
pub fn sanitize(proposed: &str) -> (r: Option<String>)
    ensures
        text::opt_view(r) == spec_sanitize(proposed@),
{
    let chars = text::chars_of(proposed);
    let mut mapped = String::new();
    let mut i: usize = 0;
    while i < chars.len()
        invariant
            i <= chars@.len(),
            chars@ == proposed@,
            mapped@ == spec_mapped(proposed@).take(i as int),
        decreases chars.len() - i,
    {
        let c = chars[i];
        let kept = text::is_ascii_alnum(c) || c == '-' || c == '_' || c == '.' || c == '/';
        let d = if kept {
            c
        } else {
            '-'
        };
        text::push_char(&mut mapped, d);
        proof {
            assert(spec_mapped(proposed@).take(i + 1) =~= spec_mapped(proposed@).take(i as int).push(d));
        }
        i = i + 1;
    }
    proof {
        assert(spec_mapped(proposed@).take(chars@.len() as int) =~= spec_mapped(proposed@));
    }
    let parts = text::split(&mapped, '/');
    let mut kept: Vec<String> = Vec::new();
    let mut k: usize = 0;
    while k < parts.len()
        invariant
            k <= parts@.len(),
            views(kept@) == spec_components(views(parts@.take(k as int))),
        decreases parts.len() - k,
    {
        proof {
            assert(views(parts@.take(k + 1)).drop_last() =~= views(parts@.take(k as int)));
            assert(views(parts@.take(k + 1)).last() == parts@[k as int]@);
        }
        match component(&parts[k]) {
            Some(c) => {
                let ghost before = kept@;
                kept.push(c);
                proof {
                    assert(views(kept@) =~= views(before).push(kept@.last()@));
                }
            },
            None => {},
        }
        k = k + 1;
    }
    proof {
        assert(parts@.take(parts@.len() as int) =~= parts@);
    }
    let name = text::join(&kept, "/");
    if text::chars_of(&name).len() > 0 {
        Some(name)
    } else {
        None
    }
}

// ---------------------------------------------------------------------------
// What a sanitized name is made of
// ---------------------------------------------------------------------------

/// Text made only of what a sanitized name may hold: ASCII letters and digits,
/// `-`, `_`, `.` and `/`.
pub open spec fn spec_plain(s: Seq<char>) -> bool {
    forall|i: int| 0 <= i < s.len() ==> spec_kept(#[trigger] s[i])
}

proof fn lemma_subrange_plain(s: Seq<char>, a: int, b: int)
    requires
        spec_plain(s),
        0 <= a <= b <= s.len(),
    ensures
        spec_plain(s.subrange(a, b)),
{
    assert forall|i: int| 0 <= i < b - a implies spec_kept(#[trigger] s.subrange(a, b)[i]) by {
        assert(s.subrange(a, b)[i] == s[a + i]);
    }
}

proof fn lemma_collapse_plain(s: Seq<char>)
    requires
        spec_plain(s),
    ensures
        spec_plain(spec_collapse(s)),
    decreases s.len(),
{
    if s.len() > 0 {
        lemma_subrange_plain(s, 0, s.len() - 1);
        assert(s.drop_last() =~= s.subrange(0, s.len() - 1));
        lemma_collapse_plain(s.drop_last());
        assert(spec_kept(s[s.len() - 1]));
    }
}

proof fn lemma_trim_plain(s: Seq<char>, pred: spec_fn(char) -> bool)
    requires
        spec_plain(s),
    ensures
        spec_plain(text::spec_trim_by(s, pred)),
        spec_plain(text::spec_trim_end_by(s, pred)),
{
    text::lemma_leading(s, pred);
    let lead = spec_leading_of(s, pred);
    let t = s.skip(lead);
    assert(t =~= s.subrange(lead, s.len() as int));
    lemma_subrange_plain(s, lead, s.len() as int);
    text::lemma_trailing(t, pred);
    assert(t.take(t.len() - text::spec_trailing(t, pred)) =~= t.subrange(0, t.len() - text::spec_trailing(t, pred)));
    lemma_subrange_plain(t, 0, t.len() - text::spec_trailing(t, pred));
    text::lemma_trailing(s, pred);
    assert(s.take(s.len() - text::spec_trailing(s, pred)) =~= s.subrange(0, s.len() - text::spec_trailing(s, pred)));
    lemma_subrange_plain(s, 0, s.len() - text::spec_trailing(s, pred));
}

spec fn spec_leading_of(s: Seq<char>, pred: spec_fn(char) -> bool) -> int {
    text::spec_leading(s, pred) as int
}

proof fn lemma_strip_locks_plain(s: Seq<char>)
    requires
        spec_plain(s),
    ensures
        spec_plain(spec_strip_locks(s)),
    decreases s.len(),
{
    if text::spec_ends_with(s, ".lock"@) {
        reveal_strlit(".lock");
        let rest = s.take(s.len() - 5);
        assert(rest =~= s.subrange(0, s.len() - 5));
        lemma_subrange_plain(s, 0, s.len() - 5);
        lemma_trim_plain(rest, text::either('-', '.'));
        text::lemma_trailing(rest, text::either('-', '.'));
        lemma_strip_locks_plain(text::spec_trim_end_by(rest, text::either('-', '.')));
    }
}

proof fn lemma_component_plain(raw: Seq<char>)
    requires
        spec_plain(raw),
    ensures
        spec_component(raw) matches Some(c) ==> spec_plain(c),
{
    lemma_collapse_plain(raw);
    lemma_trim_plain(spec_collapse(raw), text::either('-', '.'));
    lemma_strip_locks_plain(text::spec_trim_by(spec_collapse(raw), text::either('-', '.')));
}

proof fn lemma_split_plain(s: Seq<char>, sep: char)
    requires
        spec_plain(s),
    ensures
        forall|k: int| 0 <= k < text::spec_split(s, sep).len() ==> spec_plain(#[trigger] text::spec_split(s, sep)[k]),
    decreases s.len(),
{
    let i = text::spec_index_of(s, sep);
    if i >= 0 {
        text::lemma_index_of(s, sep);
        assert(s.take(i) =~= s.subrange(0, i));
        lemma_subrange_plain(s, 0, i);
        assert(s.skip(i + 1) =~= s.subrange(i + 1, s.len() as int));
        lemma_subrange_plain(s, i + 1, s.len() as int);
        lemma_split_plain(s.skip(i + 1), sep);
        let pieces = text::spec_split(s, sep);
        assert(pieces == seq![s.take(i)] + text::spec_split(s.skip(i + 1), sep));
        assert forall|k: int| 0 <= k < pieces.len() implies spec_plain(#[trigger] pieces[k]) by {
            if k > 0 {
                assert(pieces[k] == text::spec_split(s.skip(i + 1), sep)[k - 1]);
            }
        }
    }
}

proof fn lemma_components_plain(parts: Seq<Seq<char>>)
    requires
        forall|k: int| 0 <= k < parts.len() ==> spec_plain(#[trigger] parts[k]),
    ensures
        forall|k: int| 0 <= k < spec_components(parts).len() ==> spec_plain(#[trigger] spec_components(parts)[k]),
    decreases parts.len(),
{
    if parts.len() > 0 {
        let rest = parts.drop_last();
        assert forall|k: int| 0 <= k < rest.len() implies spec_plain(#[trigger] rest[k]) by {
            assert(rest[k] == parts[k]);
        }
        lemma_components_plain(rest);
        assert(spec_plain(parts.last()));
        lemma_component_plain(parts.last());
        let comps = spec_components(parts);
        assert forall|k: int| 0 <= k < comps.len() implies spec_plain(#[trigger] comps[k]) by {
            match spec_component(parts.last()) {
                Some(c) => {
                    assert(comps == spec_components(rest).push(c));
                    if k < comps.len() - 1 {
                        assert(comps[k] == spec_components(rest)[k]);
                    } else {
                        assert(comps[k] == c);
                    }
                },
                None => {
                    assert(comps == spec_components(rest));
                },
            }
        }
    }
}

proof fn lemma_join_plain(parts: Seq<Seq<char>>)
    requires
        forall|k: int| 0 <= k < parts.len() ==> spec_plain(#[trigger] parts[k]),
    ensures
        spec_plain(spec_join(parts, "/"@)),
    decreases parts.len(),
{
    reveal_strlit("/");
    if parts.len() == 1 {
        assert(spec_plain(parts[0]));
    } else if parts.len() > 1 {
        let rest = parts.drop_last();
        assert forall|k: int| 0 <= k < rest.len() implies spec_plain(#[trigger] rest[k]) by {
            assert(rest[k] == parts[k]);
        }
        lemma_join_plain(rest);
        let joined = spec_join(rest, "/"@) + "/"@ + parts.last();
        assert(spec_plain(parts.last()));
        assert forall|i: int| 0 <= i < joined.len() implies spec_kept(#[trigger] joined[i]) by {
            let a = spec_join(rest, "/"@).len();
            if i < a {
                assert(joined[i] == spec_join(rest, "/"@)[i]);
            } else if i == a {
                assert(joined[i] == '/');
            } else {
                assert(joined[i] == parts.last()[i - a - 1]);
            }
        }
    }
}

/// A proposal always becomes a name made only of ASCII letters and digits, `-`,
/// `_`, `.` and `/`: every other character, non-ASCII among them, is gone.
pub proof fn lemma_sanitized_is_plain(proposed: Seq<char>)
    ensures
        spec_sanitize(proposed) matches Some(name) ==> spec_plain(name),
{
    let mapped = spec_mapped(proposed);
    assert forall|i: int| 0 <= i < mapped.len() implies spec_kept(#[trigger] mapped[i]) by {
        reveal_strlit("-");
    }
    lemma_split_plain(mapped, '/');
    lemma_components_plain(text::spec_split(mapped, '/'));
    lemma_join_plain(spec_components(text::spec_split(mapped, '/')));
}

} // verus!
