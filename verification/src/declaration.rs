//! The producer's own release declaration: what one repository publishes, in a
//! `release-targets.toml` at its root.
//!
//! Refusing well is most of the value here: a declaration is written once per
//! repository and then read by machinery, so every refusal names what is wrong and
//! where in the document it is.

use vstd::prelude::*;

use crate::error::{Error, Result};
use crate::git::spec_refused;
use crate::home;
use crate::text::{self, views};

verus! {

/// The one name a repository's release declaration is found under, at its root.
pub const FILE: &'static str = "release-targets.toml";

/// The schema version this build writes, and the oldest it reads.
pub const SCHEMA_VERSION: u32 = 1;

/// How long, in bytes, the prose fields may be.
pub const MAX_PROSE: usize = 400;

/// How long, in bytes, a registry-qualified identifier may be.
pub const MAX_IDENTIFIER: usize = 128;

// ---------------------------------------------------------------------------
// Registry-qualified identifiers
// ---------------------------------------------------------------------------

/// A character of a registry's name: lowercase, a digit, or `-`.
pub open spec fn spec_registry_char(c: char) -> bool {
    text::spec_is_ascii_lower(c) || text::spec_is_ascii_digit(c) || c == '-'
}

/// A character of a name every registry serves.
pub open spec fn spec_name_char(c: char) -> bool {
    text::spec_is_ascii_alnum(c) || c == '-' || c == '_' || c == '.' || c == '@' || c == '/'
}

/// A name a registry serves: not empty, opening with a letter or digit, and spelled
/// in the alphabet crates.io, PyPI and npm all serve.
pub open spec fn spec_name_ok(name: Seq<char>) -> bool {
    name.len() > 0 && text::spec_is_ascii_alnum(name[0]) && text::spec_all(
        name,
        |c: char| spec_name_char(c),
    )
}

/// How a registry-qualified identifier is spelled.
pub open spec fn spec_spelled(registry: Seq<char>, name: Seq<char>) -> Seq<char> {
    registry + ":"@ + name
}

/// What reading an identifier answers: its two halves, or the refusal naming what
/// is wrong with it — too long, no colon, nothing before the colon, a registry that
/// is not one word, or a name no registry serves.
pub open spec fn spec_read_id(value: Seq<char>) -> core::result::Result<(Seq<char>, Seq<char>), Seq<char>> {
    let quoted = text::spec_debug_quoted(value);
    if vstd::utf8::encode_utf8(value).len() > MAX_IDENTIFIER {
        Err("the release-target identifier "@ + quoted + " is longer than 128 characters"@)
    } else {
        match text::spec_split_once(value, ':') {
            None => Err(
                "the release-target identifier "@ + quoted
                    + " names no registry; spell every identifier as <registry>:<name>, e.g. crate:onevcs, because one name published to two registries is two artifacts"@,
            ),
            Some((registry, name)) => if registry.len() == 0 {
                Err(
                    "the release-target identifier "@ + quoted
                        + " has nothing before its colon; spell every identifier as <registry>:<name>, e.g. pypi:onevcs-cli"@,
                )
            } else if !text::spec_all(registry, |c: char| spec_registry_char(c)) {
                Err(
                    "the release-target identifier "@ + quoted + " names the registry "@
                        + text::spec_debug_quoted(registry)
                        + ", which is not one word of lowercase letters, digits, and '-'"@,
                )
            } else if !spec_name_ok(name) {
                Err(
                    "the release-target identifier "@ + quoted + " names "@ + text::spec_debug_quoted(
                        name,
                    ) + ", which is not a name a registry serves; spell the name exactly as its registry does"@,
                )
            } else {
                Ok((registry, name))
            },
        }
    }
}

/// A registry-qualified identifier, `<registry>:<name>`, checked where it is read:
/// one name published to two registries is two artifacts.
#[derive(Debug)]
pub struct RegistryId {
    registry: String,
    name: String,
}

impl View for RegistryId {
    type V = (Seq<char>, Seq<char>);

    closed spec fn view(&self) -> (Seq<char>, Seq<char>) {
        (self.registry@, self.name@)
    }
}

impl Clone for RegistryId {
    fn clone(&self) -> (c: Self)
        ensures
            c@ == self@,
    {
        proof {
            use_type_invariant(self);
        }
        RegistryId { registry: self.registry.clone(), name: self.name.clone() }
    }
}

impl RegistryId {
    #[verifier::type_invariant]
    spec fn well_read(self) -> bool {
        spec_read_id(spec_spelled(self.registry@, self.name@)) == Ok::<
            (Seq<char>, Seq<char>),
            Seq<char>,
        >((self.registry@, self.name@))
    }

    /// Read an identifier, or say what is wrong with it.
    pub fn try_from(value: String) -> (r: core::result::Result<RegistryId, String>)
        ensures
            match spec_read_id(value@) {
                Ok((registry, name)) => r is Ok && r.unwrap()@ == (registry, name),
                Err(reason) => r is Err && r->Err_0@ == reason,
            },
    {
        let quoted = text::debug_quoted(&value);
        if value.as_str().as_bytes().len() > MAX_IDENTIFIER {
            return Err(text::concat3(
                "the release-target identifier ",
                &quoted,
                " is longer than 128 characters",
            ));
        }
        let (registry, name) = match text::split_once(&value, ':') {
            Some(halves) => halves,
            None => {
                return Err(text::concat3(
                    "the release-target identifier ",
                    &quoted,
                    " names no registry; spell every identifier as <registry>:<name>, e.g. crate:onevcs, because one name published to two registries is two artifacts",
                ));
            },
        };
        let registry_chars = text::chars_of(&registry);
        if registry_chars.len() == 0 {
            return Err(text::concat3(
                "the release-target identifier ",
                &quoted,
                " has nothing before its colon; spell every identifier as <registry>:<name>, e.g. pypi:onevcs-cli",
            ));
        }
        if !all_registry_chars(&registry_chars) {
            let mut reason = text::concat3("the release-target identifier ", &quoted, " names the registry ");
            reason.append(&text::debug_quoted(&registry));
            reason.append(", which is not one word of lowercase letters, digits, and '-'");
            return Err(reason);
        }
        if !name_ok(&name) {
            let mut reason = text::concat3("the release-target identifier ", &quoted, " names ");
            reason.append(&text::debug_quoted(&name));
            reason.append(", which is not a name a registry serves; spell the name exactly as its registry does",
            );
            return Err(reason);
        }
        proof {
            lemma_read_spelled(value@);
        }
        Ok(RegistryId { registry, name })
    }

    /// The registry half — `crate`, `pypi`, `npm`, or whatever else a producer
    /// declared.
    pub fn registry(&self) -> (out: &str)
        ensures
            out@ == self@.0,
    {
        self.registry.as_str()
    }

    /// The name half, spelled exactly as that registry serves it.
    pub fn name(&self) -> (out: &str)
        ensures
            out@ == self@.1,
    {
        self.name.as_str()
    }

    /// The identifier as it is written: `<registry>:<name>`, which reads back as
    /// this same identifier.
    pub fn spelled(&self) -> (out: String)
        ensures
            out@ == spec_spelled(self@.0, self@.1),
            spec_read_id(out@) == Ok::<(Seq<char>, Seq<char>), Seq<char>>(self@),
    {
        proof {
            use_type_invariant(self);
        }
        text::concat3(&self.registry, ":", &self.name)
    }

    /// Whether two identifiers name the same artifact.
    pub fn same(&self, other: &RegistryId) -> (b: bool)
        ensures
            b == (self@ == other@),
    {
        text::str_eq(&self.registry, &other.registry) && text::str_eq(&self.name, &other.name)
    }
}

/// A value that reads as an identifier reads back from its halves' spelling: the
/// spelling is the value itself.
proof fn lemma_read_spelled(value: Seq<char>)
    requires
        spec_read_id(value) is Ok,
    ensures
        spec_spelled(spec_read_id(value)->Ok_0.0, spec_read_id(value)->Ok_0.1) == value,
{
    let i = text::spec_index_of(value, ':');
    text::lemma_index_of(value, ':');
    assert(value =~= value.take(i) + seq![':'] + value.skip(i + 1));
    reveal_strlit(":");
}

/// An identifier reads back from its own spelling: writing one out and reading it
/// in again gives the same two halves. Neither half can carry the colon.
pub proof fn lemma_spelling_reads_back(registry: Seq<char>, name: Seq<char>)
    requires
        registry.len() > 0,
        text::spec_all(registry, |c: char| spec_registry_char(c)),
        spec_name_ok(name),
        vstd::utf8::encode_utf8(spec_spelled(registry, name)).len() <= MAX_IDENTIFIER,
    ensures
        spec_read_id(spec_spelled(registry, name)) == Ok::<(Seq<char>, Seq<char>), Seq<char>>(
            (registry, name),
        ),
{
    reveal_strlit(":");
    let value = spec_spelled(registry, name);
    assert forall|j: int| 0 <= j < registry.len() implies value[j] != ':' by {
        assert(value[j] == registry[j]);
        assert(spec_registry_char(registry[j]));
    }
    assert(value[registry.len() as int] == ':');
    text::lemma_index_of_is(value, ':', registry.len() as int);
    assert(value.take(registry.len() as int) =~= registry);
    assert(value.skip(registry.len() as int + 1) =~= name);
}

fn all_registry_chars(chars: &Vec<char>) -> (b: bool)
    ensures
        b == text::spec_all(chars@, |c: char| spec_registry_char(c)),
{
    let mut i: usize = 0;
    while i < chars.len()
        invariant
            i <= chars@.len(),
            forall|j: int| 0 <= j < i ==> spec_registry_char(#[trigger] chars@[j]),
        decreases chars.len() - i,
    {
        let c = chars[i];
        if !(text::is_ascii_lower(c) || text::is_ascii_digit(c) || c == '-') {
            return false;
        }
        i = i + 1;
    }
    true
}

fn name_ok(name: &str) -> (b: bool)
    ensures
        b == spec_name_ok(name@),
{
    let chars = text::chars_of(name);
    if chars.len() == 0 || !text::is_ascii_alnum(chars[0]) {
        return false;
    }
    let mut i: usize = 0;
    while i < chars.len()
        invariant
            i <= chars@.len(),
            chars@ == name@,
            forall|j: int| 0 <= j < i ==> spec_name_char(#[trigger] chars@[j]),
        decreases chars.len() - i,
    {
        let c = chars[i];
        if !(text::is_ascii_alnum(c) || c == '-' || c == '_' || c == '.' || c == '@' || c == '/') {
            return false;
        }
        i = i + 1;
    }
    true
}

// ---------------------------------------------------------------------------
// The document
// ---------------------------------------------------------------------------

/// The short name a target is known by.
#[derive(Debug, Clone, PartialEq, Eq, PartialOrd, Ord, Hash)]
pub struct TargetName(pub String);

/// One consumable artifact: something a dependent names in order to depend on it.
#[derive(Debug, Clone)]
pub struct DeclaredTarget {
    /// The registry-qualified identifier a registry serves this artifact under.
    pub id: RegistryId,
    /// The short name this target is known by.
    pub name: TargetName,
    /// One sentence saying what a dependent gets.
    pub what: String,
    /// The workflow and job that publish it, and the manifest its version comes from.
    pub published_by: String,
    /// The manifest this target's version is read from, relative to the root.
    pub manifest: Option<String>,
    /// Identifiers this target's release also ships, which are not targets.
    pub covers: Vec<RegistryId>,
}

/// Something this repository once published and does not publish again.
#[derive(Debug, Clone)]
pub struct RetiredArtifact {
    /// The identifier that is no longer published.
    pub id: RegistryId,
    /// Why it is not published any more.
    pub why: String,
}

/// What one repository publishes, as its own `release-targets.toml` declares it;
/// the targets in publication order.
#[derive(Debug, Clone)]
pub struct Declaration {
    /// The schema this document is written against.
    pub schema_version: u32,
    /// The script that answers what a registry currently serves, if any.
    pub probe: Option<String>,
    /// The consumable artifacts this repository publishes, in publication order.
    pub targets: Vec<DeclaredTarget>,
    /// What this repository once published and does not any more.
    pub retired: Vec<RetiredArtifact>,
}

/// The first target, from `from` on, one short name selects.
pub open spec fn spec_target_named(targets: Seq<DeclaredTarget>, name: Seq<char>, from: int) -> Option<int>
    decreases targets.len() - from,
{
    if from < 0 || from >= targets.len() {
        None
    } else if targets[from].name.0@ == name {
        Some(from)
    } else {
        spec_target_named(targets, name, from + 1)
    }
}

impl Declaration {
    /// The target one short name selects, if this repository declares it.
    pub fn target(&self, name: &TargetName) -> (r: Option<&DeclaredTarget>)
        ensures
            match spec_target_named(self.targets@, name.0@, 0) {
                Some(i) => r == Some(&self.targets@[i]),
                None => r is None,
            },
    {
        let mut i: usize = 0;
        while i < self.targets.len()
            invariant
                i <= self.targets@.len(),
                spec_target_named(self.targets@, name.0@, 0) == spec_target_named(
                    self.targets@,
                    name.0@,
                    i as int,
                ),
            decreases self.targets.len() - i,
        {
            if text::str_eq(&self.targets[i].name.0, &name.0) {
                return Some(&self.targets[i]);
            }
            i = i + 1;
        }
        None
    }
}

/// An identifier as a report spells it.
pub open spec fn spec_id_text(id: RegistryId) -> Seq<char> {
    spec_spelled(id@.0, id@.1)
}

/// The lines one target contributes to the declaration's report.
pub open spec fn spec_target_lines(t: DeclaredTarget) -> Seq<Seq<char>> {
    seq![
        "  "@ + t.name.0@ + "\t"@ + spec_id_text(t.id) + "\t"@ + t.what@,
        "    published by: "@ + t.published_by@,
    ] + match t.manifest {
        Some(m) => seq!["    manifest: "@ + m@],
        None => seq![],
    } + if t.covers@.len() == 0 {
        seq![]
    } else {
        seq!["    covers: "@ + text::spec_join(t.covers@.map_values(|c: RegistryId| spec_id_text(c)), ", "@)]
    }
}

/// Every target's lines, in publication order.
pub open spec fn spec_targets_lines(targets: Seq<DeclaredTarget>) -> Seq<Seq<char>>
    decreases targets.len(),
{
    if targets.len() == 0 {
        seq![]
    } else {
        spec_targets_lines(targets.drop_last()) + spec_target_lines(targets.last())
    }
}

/// The report of what a declaration declares: its schema, its probe, every target,
/// and — only where it retired something — what it retired and why.
pub open spec fn spec_declaration_lines(d: Declaration) -> Seq<Seq<char>> {
    seq![
        "schema version: "@ + text::spec_decimal(d.schema_version as nat),
        "probe: "@ + match d.probe {
            Some(p) => p@,
            None => "none"@,
        },
        "targets:"@,
    ] + spec_targets_lines(d.targets@) + if d.retired@.len() == 0 {
        seq![]
    } else {
        seq!["retired:"@] + d.retired@.map_values(
            |r: RetiredArtifact| "  "@ + spec_id_text(r.id) + "\t"@ + r.why@,
        )
    }
}

fn push_line(lines: &mut Vec<String>, line: String)
    ensures
        views(final(lines)@) == views(old(lines)@).push(line@),
{
    let ghost before = views(lines@);
    let ghost said = line@;
    lines.push(line);
    proof {
        assert(views(lines@) =~= before.push(said));
    }
}

fn target_lines(lines: &mut Vec<String>, t: &DeclaredTarget)
    ensures
        views(final(lines)@) == views(old(lines)@) + spec_target_lines(*t),
{
    let ghost start = views(lines@);
    let id = t.id.spelled();
    let mut first = text::concat3("  ", &t.name.0, "\t");
    first.append(&id);
    first.append("\t");
    first.append(&t.what);
    push_line(lines, first);
    push_line(lines, text::concat("    published by: ", &t.published_by));
    match &t.manifest {
        Some(m) => push_line(lines, text::concat("    manifest: ", m)),
        None => {},
    }
    if t.covers.len() > 0 {
        let mut spelled: Vec<String> = Vec::new();
        let mut i: usize = 0;
        while i < t.covers.len()
            invariant
                i <= t.covers@.len(),
                views(spelled@) == t.covers@.take(i as int).map_values(|c: RegistryId| spec_id_text(c)),
            decreases t.covers.len() - i,
        {
            push_line(&mut spelled, t.covers[i].spelled());
            proof {
                assert(t.covers@.take(i + 1) =~= t.covers@.take(i as int).push(t.covers@[i as int]));
                assert(views(spelled@) =~= t.covers@.take(i + 1).map_values(|c: RegistryId| spec_id_text(c)));
            }
            i = i + 1;
        }
        proof {
            assert(t.covers@.take(t.covers@.len() as int) =~= t.covers@);
        }
        let joined = text::join(&spelled, ", ");
        push_line(lines, text::concat("    covers: ", &joined));
    }
    proof {
        assert(views(lines@) =~= start + spec_target_lines(*t));
    }
}

impl Declaration {
    /// The report of what this declaration declares, line by line.
    pub fn render(&self) -> (out: Vec<String>)
        ensures
            views(out@) == spec_declaration_lines(*self),
    {
        let mut lines: Vec<String> = Vec::new();
        push_line(&mut lines, text::concat("schema version: ", &text::decimal(self.schema_version as u64)));
        let probe = match &self.probe {
            Some(p) => text::concat("probe: ", p),
            None => text::owned("probe: none"),
        };
        proof {
            reveal_strlit("probe: none");
            reveal_strlit("probe: ");
            reveal_strlit("none");
            assert("probe: none"@ =~= "probe: "@ + "none"@);
        }
        push_line(&mut lines, probe);
        push_line(&mut lines, text::owned("targets:"));
        let ghost head = views(lines@);
        let mut i: usize = 0;
        while i < self.targets.len()
            invariant
                i <= self.targets@.len(),
                views(lines@) == head + spec_targets_lines(self.targets@.take(i as int)),
            decreases self.targets.len() - i,
        {
            target_lines(&mut lines, &self.targets[i]);
            proof {
                assert(self.targets@.take(i + 1).drop_last() =~= self.targets@.take(i as int));
                assert(views(lines@) =~= head + spec_targets_lines(self.targets@.take(i + 1)));
            }
            i = i + 1;
        }
        proof {
            assert(self.targets@.take(self.targets@.len() as int) =~= self.targets@);
        }
        if self.retired.len() > 0 {
            push_line(&mut lines, text::owned("retired:"));
            let ghost top = views(lines@);
            let mut k: usize = 0;
            while k < self.retired.len()
                invariant
                    k <= self.retired@.len(),
                    views(lines@) == top + self.retired@.take(k as int).map_values(
                        |r: RetiredArtifact| "  "@ + spec_id_text(r.id) + "\t"@ + r.why@,
                    ),
                decreases self.retired.len() - k,
            {
                let r = &self.retired[k];
                let mut line = text::concat3("  ", &r.id.spelled(), "\t");
                line.append(&r.why);
                push_line(&mut lines, line);
                proof {
                    assert(self.retired@.take(k + 1) =~= self.retired@.take(k as int).push(self.retired@[k as int]));
                    assert(views(lines@) =~= top + self.retired@.take(k + 1).map_values(
                        |r: RetiredArtifact| "  "@ + spec_id_text(r.id) + "\t"@ + r.why@,
                    ));
                }
                k = k + 1;
            }
            proof {
                assert(self.retired@.take(self.retired@.len() as int) =~= self.retired@);
            }
        }
        proof {
            assert(views(lines@) =~= spec_declaration_lines(*self));
        }
        lines
    }
}

/// Where the declaration is, given a path and what the filesystem says of it: a
/// directory is a repository root holding [`FILE`], and anything else is the file
/// itself — refused where no file is there, since "this repository publishes
/// nothing" and "nobody has said" are different answers.
pub fn locate(path: &str, is_dir: bool, document_is_file: bool) -> (r: Result<String>)
    ensures
        ({
            let document = if is_dir {
                home::spec_path_join(path@, FILE@)
            } else {
                path@
            };
            if document_is_file {
                r is Ok && r.unwrap()@ == document
            } else {
                r is Err && spec_refused(
                    r->Err_0,
                    document + " declares no release targets: there is no release-targets.toml there, so nothing says what this repository publishes"@,
                )
            }
        }),
{
    let document = if is_dir {
        home::path_join(path, FILE)
    } else {
        text::owned(path)
    };
    if !document_is_file {
        let reason = text::concat(
            &document,
            " declares no release targets: there is no release-targets.toml there, so nothing says what this repository publishes",
        );
        return Err(Error::Invalid { reason });
    }
    Ok(document)
}

/// Settle the schema version a document declares, before its shape is enforced:
/// none, or one below this build's, is refused; the answer says whether unknown keys
/// are to be refused, which is only at the version this build knows.
pub fn check_schema_version(origin: &str, declared: Option<i64>) -> (r: Result<bool>)
    ensures
        match declared {
            None => r is Err && spec_refused(
                r->Err_0,
                "the release declaration at "@ + origin@
                    + " declares no schema_version; every declaration opens with `schema_version = 1`, before any table"@,
            ),
            Some(v) => if v < SCHEMA_VERSION {
                r is Err && spec_refused(
                    r->Err_0,
                    "the release declaration at "@ + origin@ + " declares schema_version "@
                        + text::spec_signed_decimal(v as int)
                        + "; this build reads schema_version 1 and newer"@,
                )
            } else {
                r == Ok::<bool, Error>(v == SCHEMA_VERSION)
            },
        },
{
    match declared {
        None => {
            let reason = text::concat3(
                "the release declaration at ",
                origin,
                " declares no schema_version; every declaration opens with `schema_version = 1`, before any table",
            );
            Err(Error::Invalid { reason })
        },
        Some(v) => {
            if v < SCHEMA_VERSION as i64 {
                let mut reason = text::concat3("the release declaration at ", origin, " declares schema_version ");
                let n = text::signed_decimal64(v);
                reason.append(&n);
                reason.append("; this build reads schema_version 1 and newer");
                Err(Error::Invalid { reason })
            } else {
                Ok(v == SCHEMA_VERSION as i64)
            }
        },
    }
}

// ---------------------------------------------------------------------------
// Keys the schema declares
// ---------------------------------------------------------------------------

/// A key schema version 1 declares at the top of the document.
pub open spec fn spec_top_key(key: Seq<char>) -> bool {
    key == "schema_version"@ || key == "probe"@ || key == "target"@ || key == "retired"@
}

/// A key schema version 1 declares in a `[[target]]` table.
pub open spec fn spec_target_key(key: Seq<char>) -> bool {
    key == "id"@ || key == "name"@ || key == "what"@ || key == "published_by"@ || key
        == "manifest"@ || key == "covers"@
}

/// A key schema version 1 declares in a `[[retired]]` table.
pub open spec fn spec_retired_key(key: Seq<char>) -> bool {
    key == "id"@ || key == "why"@
}

/// What an unknown key is refused as.
pub open spec fn spec_unknown_key(origin: Seq<char>, table: Seq<char>, key: Seq<char>) -> Seq<char> {
    "the release declaration at "@ + origin + " names "@ + text::spec_debug_quoted(key) + " in "@
        + table
        + ", which schema_version 1 does not declare; a misspelled key would otherwise be read as an absent one"@
}

/// The first key of a list, from `from` on, that `known` does not hold of.
pub open spec fn spec_first_unknown(keys: Seq<Seq<char>>, which: int, from: int) -> Option<Seq<char>>
    decreases keys.len() - from,
{
    if from < 0 || from >= keys.len() {
        None
    } else if !(if which == 0 {
        spec_top_key(keys[from])
    } else if which == 1 {
        spec_target_key(keys[from])
    } else {
        spec_retired_key(keys[from])
    }) {
        Some(keys[from])
    } else {
        spec_first_unknown(keys, which, from + 1)
    }
}

fn known_key(key: &str, which: u8) -> (b: bool)
    ensures
        b == (if which == 0 {
            spec_top_key(key@)
        } else if which == 1 {
            spec_target_key(key@)
        } else {
            spec_retired_key(key@)
        }),
{
    if which == 0 {
        text::str_eq(key, "schema_version") || text::str_eq(key, "probe") || text::str_eq(key, "target")
            || text::str_eq(key, "retired")
    } else if which == 1 {
        text::str_eq(key, "id") || text::str_eq(key, "name") || text::str_eq(key, "what")
            || text::str_eq(key, "published_by") || text::str_eq(key, "manifest") || text::str_eq(
            key,
            "covers",
        )
    } else {
        text::str_eq(key, "id") || text::str_eq(key, "why")
    }
}

fn first_unknown(keys: &[String], which: u8) -> (r: Option<String>)
    ensures
        text::opt_view(r) == spec_first_unknown(views(keys@), which as int, 0),
{
    let mut k: usize = 0;
    while k < keys.len()
        invariant
            k <= keys@.len(),
            spec_first_unknown(views(keys@), which as int, 0) == spec_first_unknown(
                views(keys@),
                which as int,
                k as int,
            ),
        decreases keys.len() - k,
    {
        if !known_key(&keys[k], which) {
            return Some(keys[k].clone());
        }
        k = k + 1;
    }
    None
}

/// The first unknown key of the tables in one array, with the table it is in.
pub open spec fn spec_first_unknown_in(
    array: Seq<char>,
    tables: Seq<Option<Seq<Seq<char>>>>,
    which: int,
    from: int,
) -> Option<(Seq<char>, Seq<char>)>
    decreases tables.len() - from,
{
    if from < 0 || from >= tables.len() {
        None
    } else {
        match tables[from] {
            Some(keys) => match spec_first_unknown(keys, which, 0) {
                Some(key) => Some(
                    ("[["@ + array + "]] "@ + text::spec_decimal((from + 1) as nat), key),
                ),
                None => spec_first_unknown_in(array, tables, which, from + 1),
            },
            None => spec_first_unknown_in(array, tables, which, from + 1),
        }
    }
}

/// The keys of each entry of an array, `None` for an entry that is not a table.
pub open spec fn table_views(tables: Seq<Option<Vec<String>>>) -> Seq<Option<Seq<Seq<char>>>> {
    tables.map_values(|t: Option<Vec<String>>| match t {
        Some(keys) => Some(views(keys@)),
        None => None,
    })
}

fn first_unknown_in(array: &str, tables: &[Option<Vec<String>>], which: u8) -> (r: Option<(String, String)>)
    ensures
        match spec_first_unknown_in(array@, table_views(tables@), which as int, 0) {
            Some((table, key)) => r is Some && r.unwrap().0@ == table && r.unwrap().1@ == key,
            None => r is None,
        },
{
    let ghost t = table_views(tables@);
    let mut i: usize = 0;
    while i < tables.len()
        invariant
            i <= tables@.len(),
            t == table_views(tables@),
            spec_first_unknown_in(array@, t, which as int, 0) == spec_first_unknown_in(
                array@,
                t,
                which as int,
                i as int,
            ),
        decreases tables.len() - i,
    {
        match &tables[i] {
            Some(keys) => {
                proof {
                    assert(t[i as int] == Some(views(keys@)));
                }
                match first_unknown(keys, which) {
                    Some(key) => {
                        let n = text::decimal((i + 1) as u64);
                        let mut table = text::concat3("[[", array, "]] ");
                        table.append(&n);
                        return Some((table, key));
                    },
                    None => {},
                }
            },
            None => {
                proof {
                    assert(t[i as int] is None);
                }
            },
        }
        i = i + 1;
    }
    None
}

/// Refuse a key schema version 1 does not declare, naming it and the table it is
/// in: the top of the document first (`None` where it is not a table at all), then
/// each `[[target]]`, then each `[[retired]]` — a typo would otherwise be read as an
/// absent key.
pub fn refuse_unknown_keys(
    origin: &str,
    top: Option<&[String]>,
    targets: &[Option<Vec<String>>],
    retired: &[Option<Vec<String>>],
) -> (r: Result<()>)
    ensures
        match top {
            None => r is Err && spec_refused(
                r->Err_0,
                "the release declaration at "@ + origin@
                    + " is not a table of keys; every declaration opens with `schema_version = 1`, before any table"@,
            ),
            Some(keys) => match spec_first_unknown(views(keys@), 0, 0) {
                Some(key) => r is Err && spec_refused(
                    r->Err_0,
                    spec_unknown_key(origin@, "the document"@, key),
                ),
                None => match spec_first_unknown_in("target"@, table_views(targets@), 1, 0) {
                    Some((table, key)) => r is Err && spec_refused(
                        r->Err_0,
                        spec_unknown_key(origin@, table, key),
                    ),
                    None => match spec_first_unknown_in("retired"@, table_views(retired@), 2, 0) {
                        Some((table, key)) => r is Err && spec_refused(
                            r->Err_0,
                            spec_unknown_key(origin@, table, key),
                        ),
                        None => r is Ok,
                    },
                },
            },
        },
{
    let keys = match top {
        Some(keys) => keys,
        None => {
            let reason = text::concat3(
                "the release declaration at ",
                origin,
                " is not a table of keys; every declaration opens with `schema_version = 1`, before any table",
            );
            return Err(Error::Invalid { reason });
        },
    };
    let found = match first_unknown(keys, 0) {
        Some(key) => Some((text::owned("the document"), key)),
        None => match first_unknown_in("target", targets, 1) {
            Some(found) => Some(found),
            None => first_unknown_in("retired", retired, 2),
        },
    };
    match found {
        Some((table, key)) => {
            let mut reason = text::concat3("the release declaration at ", origin, " names ");
            reason.append(&text::debug_quoted(&key));
            reason.append(" in ");
            reason.append(&table);
            reason.append(", which schema_version 1 does not declare; a misspelled key would otherwise be read as an absent one",
            );
            Err(Error::Invalid { reason })
        },
        None => Ok(()),
    }
}

// ---------------------------------------------------------------------------
// Admitting a document
// ---------------------------------------------------------------------------

/// What the TOML parser reads a document's text as, before any shape is enforced:
/// the integer `schema_version` holds, the keys of the top table (`None` where the
/// document is not a table), and the keys of each `[[target]]` and `[[retired]]`
/// entry (`None` for an entry that is not a table) — or the parser's own complaint.
pub uninterp spec fn spec_toml_shape(raw: Seq<char>) -> core::result::Result<
    (Option<i64>, Option<Seq<Seq<char>>>, Seq<Option<Seq<Seq<char>>>>, Seq<Option<Seq<Seq<char>>>>),
    Seq<char>,
>;

/// A document's shape, as contracts speak of it.
pub open spec fn shape_view(
    r: core::result::Result<(Option<i64>, Option<Vec<String>>, Vec<Option<Vec<String>>>, Vec<Option<Vec<String>>>), String>,
) -> core::result::Result<
    (Option<i64>, Option<Seq<Seq<char>>>, Seq<Option<Seq<Seq<char>>>>, Seq<Option<Seq<Seq<char>>>>),
    Seq<char>,
> {
    match r {
        Ok((declared, top, targets, retired)) => Ok(
            (
                declared,
                match top {
                    Some(keys) => Some(views(keys@)),
                    None => None,
                },
                table_views(targets@),
                table_views(retired@),
            ),
        ),
        Err(failure) => Err(failure@),
    }
}

/// Read a document's text with the `toml` crate (`toml::from_str` into a
/// `toml::Value`), keeping what settles whether it is admitted: its
/// `schema_version` as an integer, and the keys of its top table and of each
/// `[[target]]` and `[[retired]]` entry. A document the parser refuses answers the
/// parser's message.
#[verifier::external_body]
fn toml_shape(raw: &str) -> (r: core::result::Result<
    (Option<i64>, Option<Vec<String>>, Vec<Option<Vec<String>>>, Vec<Option<Vec<String>>>),
    String,
>)
    ensures
        shape_view(r) == spec_toml_shape(raw@),
{
    let keys = |v: &toml::Value| v.as_table().map(|t| t.keys().cloned().collect::<Vec<String>>());
    let entries = |d: &toml::Value, a: &str| d.get(a).and_then(toml::Value::as_array).map(|e| e.iter().map(keys).collect()).unwrap_or_default();
    let doc: toml::Value = toml::from_str(raw).map_err(|e| e.to_string())?;
    Ok((doc.get("schema_version").and_then(toml::Value::as_integer), keys(&doc), entries(&doc, "target"), entries(&doc, "retired")))
}

/// What settling a declared schema version answers: whether unknown keys are to be
/// refused, or the refusal.
pub open spec fn spec_schema_check(origin: Seq<char>, declared: Option<i64>) -> core::result::Result<bool, Seq<char>> {
    match declared {
        None => Err(
            "the release declaration at "@ + origin
                + " declares no schema_version; every declaration opens with `schema_version = 1`, before any table"@,
        ),
        Some(v) => if v < SCHEMA_VERSION {
            Err(
                "the release declaration at "@ + origin + " declares schema_version "@
                    + text::spec_signed_decimal(v as int) + "; this build reads schema_version 1 and newer"@,
            )
        } else {
            Ok(v == SCHEMA_VERSION)
        },
    }
}

/// The refusal a key schema version 1 does not declare earns, if any key is one.
pub open spec fn spec_keys_refusal(
    origin: Seq<char>,
    top: Option<Seq<Seq<char>>>,
    targets: Seq<Option<Seq<Seq<char>>>>,
    retired: Seq<Option<Seq<Seq<char>>>>,
) -> Option<Seq<char>> {
    match top {
        None => Some(
            "the release declaration at "@ + origin
                + " is not a table of keys; every declaration opens with `schema_version = 1`, before any table"@,
        ),
        Some(keys) => match spec_first_unknown(keys, 0, 0) {
            Some(key) => Some(spec_unknown_key(origin, "the document"@, key)),
            None => match spec_first_unknown_in("target"@, targets, 1, 0) {
                Some((table, key)) => Some(spec_unknown_key(origin, table, key)),
                None => match spec_first_unknown_in("retired"@, retired, 2, 0) {
                    Some((table, key)) => Some(spec_unknown_key(origin, table, key)),
                    None => None,
                },
            },
        },
    }
}

/// Whether a declaration's text is admitted before its shape is read: it must be
/// TOML, declare a schema version this build reads, and — at the version this build
/// knows — name no key that version does not declare. The answer says whether
/// unknown keys were refused, which is only at that version.
pub fn admit_declaration(raw: &str, origin: &str) -> (r: Result<bool>)
    ensures
        match spec_toml_shape(raw@) {
            Err(failure) => r is Err && spec_refused(
                r->Err_0,
                "the release declaration at "@ + origin@ + " is not TOML: "@ + failure,
            ),
            Ok((declared, top, targets, retired)) => match spec_schema_check(origin@, declared) {
                Err(refusal) => r is Err && spec_refused(r->Err_0, refusal),
                Ok(current) => if !current {
                    r == Ok::<bool, Error>(false)
                } else {
                    match spec_keys_refusal(origin@, top, targets, retired) {
                        Some(refusal) => r is Err && spec_refused(r->Err_0, refusal),
                        None => r == Ok::<bool, Error>(true),
                    }
                },
            },
        },
{
    let (declared, top, targets, retired) = match toml_shape(raw) {
        Ok(shape) => shape,
        Err(failure) => {
            let mut reason = text::concat3("the release declaration at ", origin, " is not TOML: ");
            reason.append(&failure);
            return Err(Error::Invalid { reason });
        },
    };
    let current = check_schema_version(origin, declared)?;
    if !current {
        return Ok(false);
    }
    let top_keys = match &top {
        Some(keys) => Some(keys.as_slice()),
        None => None,
    };
    refuse_unknown_keys(origin, top_keys, &targets, &retired)?;
    Ok(true)
}

// ---------------------------------------------------------------------------
// Fields one at a time
// ---------------------------------------------------------------------------

/// What is wrong with a prose field, if anything: blank, longer than it can be
/// rendered on one line, or carrying a control character.
pub open spec fn spec_prose_problem(value: Seq<char>, field: Seq<char>, origin: Seq<char>, at: Seq<char>) -> Option<
    Seq<char>,
> {
    let opening = "the release declaration at "@ + origin + " has "@ + at + " whose "@ + field;
    if text::spec_trim(value).len() == 0 {
        Some(
            opening
                + " is blank; it is what a reader learns from this entry, so an empty one leaves them with the identifier alone"@,
        )
    } else if vstd::utf8::encode_utf8(value).len() > MAX_PROSE {
        Some(
            opening
                + " is longer than 400 characters; it is rendered on one line beside the entry it describes, and the reasoning behind it belongs in a comment"@,
        )
    } else if exists|i: int| 0 <= i < value.len() && text::spec_is_control(#[trigger] value[i]) {
        Some(opening + " carries a control character; it is rendered on one line, so it must be one"@)
    } else {
        None
    }
}

/// Whether a prose field says something, on the one line it is rendered on.
pub fn prose(value: &str, field: &str, origin: &str, at: &str) -> (r: Result<()>)
    ensures
        match spec_prose_problem(value@, field@, origin@, at@) {
            Some(reason) => r is Err && spec_refused(r->Err_0, reason),
            None => r is Ok,
        },
{
    let mut opening = text::concat3("the release declaration at ", origin, " has ");
    opening.append(at);
    opening.append(" whose ");
    opening.append(field);
    if text::is_blank(value) {
        opening.append(" is blank; it is what a reader learns from this entry, so an empty one leaves them with the identifier alone",
        );
        return Err(Error::Invalid { reason: opening });
    }
    if value.as_bytes().len() > MAX_PROSE {
        opening.append(" is longer than 400 characters; it is rendered on one line beside the entry it describes, and the reasoning behind it belongs in a comment",
        );
        return Err(Error::Invalid { reason: opening });
    }
    let chars = text::chars_of(value);
    let ghost opened = opening@;
    let mut i: usize = 0;
    while i < chars.len()
        invariant
            i <= chars@.len(),
            chars@ == value@,
            opening@ == opened,
            opened == "the release declaration at "@ + origin@ + " has "@ + at@ + " whose "@ + field@,
            text::spec_trim(value@).len() > 0,
            vstd::utf8::encode_utf8(value@).len() <= MAX_PROSE,
            forall|j: int| 0 <= j < i ==> !text::spec_is_control(#[trigger] chars@[j]),
        decreases chars.len() - i,
    {
        if text::is_control(chars[i]) {
            assert(text::spec_is_control(value@[i as int]));
            opening.append(" carries a control character; it is rendered on one line, so it must be one",
            );
            return Err(Error::Invalid { reason: opening });
        }
        i = i + 1;
    }
    Ok(())
}

/// What is wrong with a path a declaration names, if anything: empty, absolute, or
/// leaving the repository root through a `..` component.
pub open spec fn spec_path_problem(path: Seq<char>, field: Seq<char>) -> Option<Seq<char>> {
    if path.len() == 0 {
        Some(field + " is an empty path"@)
    } else if path[0] == '/' {
        Some(
            field + " is the absolute path "@ + path
                + "; it is a path relative to the repository root, because it names something the repository being released carries"@,
        )
    } else if text::spec_split(path, '/').contains(".."@) {
        Some(
            field + " is the path "@ + path
                + ", which leaves the repository root; it names something the repository being released carries"@,
        )
    } else {
        None
    }
}

/// A path with a `..` component is always refused: whatever else it is, it can
/// reach outside the repository root, so nothing a declaration names may have one.
/// A relative one is refused as leaving the root.
pub proof fn lemma_parent_components_are_refused(path: Seq<char>, field: Seq<char>)
    requires
        text::spec_split(path, '/').contains(".."@),
    ensures
        spec_path_problem(path, field) is Some,
        path.len() > 0 && path[0] != '/' ==> spec_path_problem(path, field) == Some(
            field + " is the path "@ + path
                + ", which leaves the repository root; it names something the repository being released carries"@,
        ),
{
}

/// What a declaration may name is exactly a relative path that stays inside the
/// repository: a path is accepted only when it is not empty, does not open with `/`,
/// and has no `..` component.
pub proof fn lemma_accepted_paths_stay_inside(path: Seq<char>, field: Seq<char>)
    ensures
        spec_path_problem(path, field) is None <==> (path.len() > 0 && path[0] != '/'
            && !text::spec_split(path, '/').contains(".."@)),
{
}

/// Refuse a path that does not name a file the repository itself carries.
pub fn inside_the_repository(path: &str, field: &str) -> (r: core::result::Result<(), String>)
    ensures
        match spec_path_problem(path@, field@) {
            Some(problem) => r is Err && r->Err_0@ == problem,
            None => r is Ok,
        },
{
    let chars = text::chars_of(path);
    if chars.len() == 0 {
        return Err(text::concat(field, " is an empty path"));
    }
    if chars[0] == '/' {
        let mut problem = text::concat3(field, " is the absolute path ", path);
        problem.append("; it is a path relative to the repository root, because it names something the repository being released carries",
        );
        return Err(problem);
    }
    let components = text::split(path, '/');
    if text::contains_text(&components, "..") {
        let mut problem = text::concat3(field, " is the path ", path);
        problem.append(", which leaves the repository root; it names something the repository being released carries",
        );
        return Err(problem);
    }
    Ok(())
}


// ---------------------------------------------------------------------------
// The whole document
// ---------------------------------------------------------------------------

/// How a refusal names one entry: its table, its one-based position, and its
/// identifier quoted.
pub open spec fn spec_at(kind: Seq<char>, index: int, id: (Seq<char>, Seq<char>)) -> Seq<char> {
    "[["@ + kind + "]] "@ + text::spec_decimal((index + 1) as nat) + " ("@ + text::spec_debug_quoted(
        spec_spelled(id.0, id.1),
    ) + ")"@
}

fn at(kind: &str, index: usize, id: &RegistryId) -> (out: String)
    requires
        index < usize::MAX,
    ensures
        out@ == spec_at(kind@, index as int, id@),
{
    let mut out = text::concat3("[[", kind, "]] ");
    let n = text::decimal((index + 1) as u64);
    out.append(&n);
    out.append(" (");
    let spelled = id.spelled();
    out.append(&text::debug_quoted(&spelled));
    out.append(")");
    out
}

/// The opening every refusal of a whole document shares.
pub open spec fn spec_opening(origin: Seq<char>) -> Seq<char> {
    "the release declaration at "@ + origin
}

/// The first target before `upto`, from `from` on, with this short name.
pub open spec fn spec_first_name(targets: Seq<DeclaredTarget>, name: Seq<char>, from: int, upto: int) -> Option<int>
    decreases upto - from,
{
    if from < 0 || from >= upto || from >= targets.len() {
        None
    } else if targets[from].name.0@ == name {
        Some(from)
    } else {
        spec_first_name(targets, name, from + 1, upto)
    }
}

/// The first target before `upto`, from `from` on, with this identifier.
pub open spec fn spec_first_id(targets: Seq<DeclaredTarget>, id: (Seq<char>, Seq<char>), from: int, upto: int) -> Option<int>
    decreases upto - from,
{
    if from < 0 || from >= upto || from >= targets.len() {
        None
    } else if targets[from].id@ == id {
        Some(from)
    } else {
        spec_first_id(targets, id, from + 1, upto)
    }
}

/// What is wrong with target `i` on its own or beside the targets before it.
pub open spec fn spec_target_problem(d: Declaration, origin: Seq<char>, i: int) -> Option<Seq<char>> {
    let target = d.targets@[i];
    let at = spec_at("target"@, i, target.id@);
    let opening = spec_opening(origin);
    match spec_prose_problem(target.what@, "what"@, origin, at) {
        Some(p) => Some(p),
        None => match spec_prose_problem(target.published_by@, "published_by"@, origin, at) {
            Some(p) => Some(p),
            None => match (match target.manifest {
                Some(m) => spec_path_problem(m@, "manifest"@),
                None => None,
            }) {
                Some(problem) => Some(opening + " has "@ + at + " whose "@ + problem),
                None => match spec_first_name(d.targets@, target.name.0@, 0, i) {
                    Some(e) => Some(
                        opening + " has "@ + at + " taking the short name "@ + text::spec_debug_quoted(
                            target.name.0@,
                        ) + ", which [[target]] "@ + text::spec_decimal((e + 1) as nat)
                            + " already takes; the short name is what a host document and a consumer's plan name this target by, so two of them are two answers to one question"@,
                    ),
                    None => match spec_first_id(d.targets@, target.id@, 0, i) {
                        Some(e) => Some(
                            opening + " has "@ + at + " declaring the identifier [[target]] "@
                                + text::spec_decimal((e + 1) as nat)
                                + " already declares; one artifact is one target"@,
                        ),
                        None => None,
                    },
                },
            },
        },
    }
}

/// The first target, from `from` on, with a problem.
pub open spec fn spec_first_target_problem(d: Declaration, origin: Seq<char>, from: int) -> Option<Seq<char>>
    decreases d.targets@.len() - from,
{
    if from < 0 || from >= d.targets@.len() {
        None
    } else {
        match spec_target_problem(d, origin, from) {
            Some(p) => Some(p),
            None => spec_first_target_problem(d, origin, from + 1),
        }
    }
}

/// Whether target `j` covers `id` among its first `upto` covers.
pub open spec fn spec_covers_within(target: DeclaredTarget, id: (Seq<char>, Seq<char>), upto: int) -> bool {
    exists|k: int| 0 <= k < upto && k < target.covers@.len() && #[trigger] target.covers@[k]@ == id
}

/// The first target, from `from` on, that covered `id` before cover `k` of target
/// `i` was reached.
pub open spec fn spec_first_coverer(
    targets: Seq<DeclaredTarget>,
    id: (Seq<char>, Seq<char>),
    i: int,
    k: int,
    from: int,
) -> Option<int>
    decreases i + 1 - from,
{
    if from < 0 || from > i || from >= targets.len() {
        None
    } else if spec_covers_within(
        targets[from],
        id,
        if from < i {
            targets[from].covers@.len() as int
        } else {
            k
        },
    ) {
        Some(from)
    } else {
        spec_first_coverer(targets, id, i, k, from + 1)
    }
}

/// What is wrong with cover `k` of target `i`: it is the target's own identifier,
/// another target's, or one an earlier cover already took.
pub open spec fn spec_cover_problem(d: Declaration, origin: Seq<char>, i: int, k: int) -> Option<Seq<char>> {
    let target = d.targets@[i];
    let id = target.covers@[k]@;
    let at = spec_at("target"@, i, target.id@);
    let opening = spec_opening(origin);
    if id == target.id@ {
        Some(
            opening + " has "@ + at
                + " covering its own identifier; `covers` names what a target's release also ships and that is not a target of its own"@,
        )
    } else {
        match spec_first_id(d.targets@, id, 0, d.targets@.len() as int) {
            Some(o) => Some(
                opening + " has "@ + at + " covering "@ + text::spec_debug_quoted(spec_spelled(id.0, id.1))
                    + ", which [[target]] "@ + text::spec_decimal((o + 1) as nat)
                    + " declares as a target of its own; an artifact is one or the other, because a consumer waits on a target by name and never waits on something covered"@,
            ),
            None => match spec_first_coverer(d.targets@, id, i, k, 0) {
                Some(e) => Some(
                    opening + " has "@ + at + " covering "@ + text::spec_debug_quoted(
                        spec_spelled(id.0, id.1),
                    ) + ", which [[target]] "@ + text::spec_decimal((e + 1) as nat)
                        + " already covers; one artifact is shipped by one release"@,
                ),
                None => None,
            },
        }
    }
}

/// The first cover of target `i`, from `k` on, with a problem.
pub open spec fn spec_first_cover_in(d: Declaration, origin: Seq<char>, i: int, k: int) -> Option<Seq<char>>
    decreases d.targets@[i].covers@.len() - k,
{
    if k < 0 || k >= d.targets@[i].covers@.len() {
        None
    } else {
        match spec_cover_problem(d, origin, i, k) {
            Some(p) => Some(p),
            None => spec_first_cover_in(d, origin, i, k + 1),
        }
    }
}

/// The first cover, of target `from` on, with a problem.
pub open spec fn spec_first_cover_problem(d: Declaration, origin: Seq<char>, from: int) -> Option<Seq<char>>
    decreases d.targets@.len() - from,
{
    if from < 0 || from >= d.targets@.len() {
        None
    } else {
        match spec_first_cover_in(d, origin, from, 0) {
            Some(p) => Some(p),
            None => spec_first_cover_problem(d, origin, from + 1),
        }
    }
}

/// The first retired entry before `upto`, from `from` on, with this identifier.
pub open spec fn spec_first_retired_id(retired: Seq<RetiredArtifact>, id: (Seq<char>, Seq<char>), from: int, upto: int) -> Option<int>
    decreases upto - from,
{
    if from < 0 || from >= upto || from >= retired.len() {
        None
    } else if retired[from].id@ == id {
        Some(from)
    } else {
        spec_first_retired_id(retired, id, from + 1, upto)
    }
}

/// What is wrong with retired entry `i`: its reason, a target that still publishes
/// it, or an earlier entry recording it already.
pub open spec fn spec_retired_problem(d: Declaration, origin: Seq<char>, i: int) -> Option<Seq<char>> {
    let entry = d.retired@[i];
    let at = spec_at("retired"@, i, entry.id@);
    let opening = spec_opening(origin);
    match spec_prose_problem(entry.why@, "why"@, origin, at) {
        Some(p) => Some(p),
        None => match spec_first_id(d.targets@, entry.id@, 0, d.targets@.len() as int) {
            Some(t) => Some(
                opening + " has "@ + at + " retiring what [[target]] "@ + text::spec_decimal(
                    (t + 1) as nat,
                )
                    + " publishes; a retired artifact is one this repository does not publish any more"@,
            ),
            None => match spec_first_retired_id(d.retired@, entry.id@, 0, i) {
                Some(e) => Some(
                    opening + " has "@ + at + " repeating what [[retired]] "@ + text::spec_decimal(
                        (e + 1) as nat,
                    ) + " already records"@,
                ),
                None => None,
            },
        },
    }
}

/// The first retired entry, from `from` on, with a problem.
pub open spec fn spec_first_retired_problem(d: Declaration, origin: Seq<char>, from: int) -> Option<Seq<char>>
    decreases d.retired@.len() - from,
{
    if from < 0 || from >= d.retired@.len() {
        None
    } else {
        match spec_retired_problem(d, origin, from) {
            Some(p) => Some(p),
            None => spec_first_retired_problem(d, origin, from + 1),
        }
    }
}

/// What no target declared is refused as.
pub const NO_TARGETS: &'static str = " declares no [[target]]; a declaration that names nothing says less than no declaration at all, because a consumer reading it cannot tell whether this repository publishes nothing or nobody has said what it publishes";

/// The first thing a whole document is refused for, in the order it is checked.
pub open spec fn spec_validation(d: Declaration, origin: Seq<char>) -> Option<Seq<char>> {
    if d.targets@.len() == 0 {
        Some(spec_opening(origin) + NO_TARGETS@)
    } else {
        match (match d.probe {
            Some(p) => spec_path_problem(p@, "probe"@),
            None => None,
        }) {
            Some(problem) => Some(spec_opening(origin) + " "@ + problem),
            None => match spec_first_target_problem(d, origin, 0) {
                Some(p) => Some(p),
                None => match spec_first_cover_problem(d, origin, 0) {
                    Some(p) => Some(p),
                    None => spec_first_retired_problem(d, origin, 0),
                },
            },
        }
    }
}

fn first_name(targets: &Vec<DeclaredTarget>, name: &str, upto: usize) -> (r: Option<usize>)
    requires
        upto <= targets@.len(),
    ensures
        match spec_first_name(targets@, name@, 0, upto as int) {
            Some(e) => r is Some && r.unwrap() == e,
            None => r is None,
        },
        r matches Some(e) ==> e < upto,
{
    let mut j: usize = 0;
    while j < upto
        invariant
            j <= upto <= targets@.len(),
            spec_first_name(targets@, name@, 0, upto as int) == spec_first_name(targets@, name@, j as int, upto as int),
        decreases upto - j,
    {
        if text::str_eq(&targets[j].name.0, name) {
            return Some(j);
        }
        j = j + 1;
    }
    None
}

fn first_id(targets: &Vec<DeclaredTarget>, id: &RegistryId, upto: usize) -> (r: Option<usize>)
    requires
        upto <= targets@.len(),
    ensures
        match spec_first_id(targets@, id@, 0, upto as int) {
            Some(e) => r is Some && r.unwrap() == e,
            None => r is None,
        },
        r matches Some(e) ==> e < upto,
{
    let mut j: usize = 0;
    while j < upto
        invariant
            j <= upto <= targets@.len(),
            spec_first_id(targets@, id@, 0, upto as int) == spec_first_id(targets@, id@, j as int, upto as int),
        decreases upto - j,
    {
        if targets[j].id.same(id) {
            return Some(j);
        }
        j = j + 1;
    }
    None
}

fn first_retired_id(retired: &Vec<RetiredArtifact>, id: &RegistryId, upto: usize) -> (r: Option<usize>)
    requires
        upto <= retired@.len(),
    ensures
        match spec_first_retired_id(retired@, id@, 0, upto as int) {
            Some(e) => r is Some && r.unwrap() == e,
            None => r is None,
        },
        r matches Some(e) ==> e < upto,
{
    let mut j: usize = 0;
    while j < upto
        invariant
            j <= upto <= retired@.len(),
            spec_first_retired_id(retired@, id@, 0, upto as int) == spec_first_retired_id(retired@, id@, j as int, upto as int),
        decreases upto - j,
    {
        if retired[j].id.same(id) {
            return Some(j);
        }
        j = j + 1;
    }
    None
}

fn covers_within(target: &DeclaredTarget, id: &RegistryId, upto: usize) -> (b: bool)
    requires
        upto <= target.covers@.len(),
    ensures
        b == spec_covers_within(*target, id@, upto as int),
{
    let mut k: usize = 0;
    while k < upto
        invariant
            k <= upto <= target.covers@.len(),
            forall|x: int| 0 <= x < k ==> #[trigger] target.covers@[x]@ != id@,
        decreases upto - k,
    {
        if target.covers[k].same(id) {
            return true;
        }
        k = k + 1;
    }
    false
}

fn first_coverer(targets: &Vec<DeclaredTarget>, id: &RegistryId, i: usize, k: usize) -> (r: Option<usize>)
    requires
        i < targets@.len(),
        k <= targets@[i as int].covers@.len(),
    ensures
        match spec_first_coverer(targets@, id@, i as int, k as int, 0) {
            Some(e) => r is Some && r.unwrap() == e,
            None => r is None,
        },
        r matches Some(e) ==> e <= i,
{
    let n = targets.len();
    let mut j: usize = 0;
    while j <= i
        invariant
            j <= i + 1,
            n == targets@.len(),
            i < targets@.len(),
            k <= targets@[i as int].covers@.len(),
            spec_first_coverer(targets@, id@, i as int, k as int, 0) == spec_first_coverer(targets@, id@, i as int, k as int, j as int),
        decreases i + 1 - j,
    {
        let upto = if j < i {
            targets[j].covers.len()
        } else {
            k
        };
        if covers_within(&targets[j], id, upto) {
            return Some(j);
        }
        j = j + 1;
    }
    None
}

fn refused(reason: String) -> (e: Error)
    ensures
        spec_refused(e, reason@),
{
    Error::Invalid { reason }
}

fn target_problem(d: &Declaration, origin: &str, i: usize) -> (r: Option<Error>)
    requires
        i < d.targets@.len(),
    ensures
        match spec_target_problem(*d, origin@, i as int) {
            Some(p) => r is Some && spec_refused(r.unwrap(), p),
            None => r is None,
        },
{
    let n = d.targets.len();
    let target = &d.targets[i];
    let here = at("target", i, &target.id);
    if let Err(e) = prose(&target.what, "what", origin, &here) {
        return Some(e);
    }
    if let Err(e) = prose(&target.published_by, "published_by", origin, &here) {
        return Some(e);
    }
    if let Some(manifest) = &target.manifest {
        if let Err(problem) = inside_the_repository(manifest, "manifest") {
            let mut reason = text::concat3("the release declaration at ", origin, " has ");
            reason.append(&here);
            reason.append(" whose ");
            reason.append(&problem);
            return Some(refused(reason));
        }
    }
    if let Some(e) = first_name(&d.targets, &target.name.0, i) {
        let mut reason = text::concat3("the release declaration at ", origin, " has ");
        reason.append(&here);
        reason.append(" taking the short name ");
        reason.append(&text::debug_quoted(&target.name.0));
        reason.append(", which [[target]] ");
        reason.append(&text::decimal((e + 1) as u64));
        reason.append(" already takes; the short name is what a host document and a consumer's plan name this target by, so two of them are two answers to one question",
        );
        return Some(refused(reason));
    }
    if let Some(e) = first_id(&d.targets, &target.id, i) {
        let mut reason = text::concat3("the release declaration at ", origin, " has ");
        reason.append(&here);
        reason.append(" declaring the identifier [[target]] ");
        reason.append(&text::decimal((e + 1) as u64));
        reason.append(" already declares; one artifact is one target");
        return Some(refused(reason));
    }
    None
}

fn cover_problem(d: &Declaration, origin: &str, i: usize, k: usize) -> (r: Option<Error>)
    requires
        i < d.targets@.len(),
        k < d.targets@[i as int].covers@.len(),
    ensures
        match spec_cover_problem(*d, origin@, i as int, k as int) {
            Some(p) => r is Some && spec_refused(r.unwrap(), p),
            None => r is None,
        },
{
    let n = d.targets.len();
    let target = &d.targets[i];
    let id = &target.covers[k];
    let here = at("target", i, &target.id);
    if id.same(&target.id) {
        let mut reason = text::concat3("the release declaration at ", origin, " has ");
        reason.append(&here);
        reason.append(" covering its own identifier; `covers` names what a target's release also ships and that is not a target of its own",
        );
        return Some(refused(reason));
    }
    if let Some(o) = first_id(&d.targets, id, d.targets.len()) {
        let mut reason = text::concat3("the release declaration at ", origin, " has ");
        reason.append(&here);
        reason.append(" covering ");
        reason.append(&text::debug_quoted(&id.spelled()));
        reason.append(", which [[target]] ");
        reason.append(&text::decimal((o + 1) as u64));
        reason.append(" declares as a target of its own; an artifact is one or the other, because a consumer waits on a target by name and never waits on something covered",
        );
        return Some(refused(reason));
    }
    if let Some(e) = first_coverer(&d.targets, id, i, k) {
        let mut reason = text::concat3("the release declaration at ", origin, " has ");
        reason.append(&here);
        reason.append(" covering ");
        reason.append(&text::debug_quoted(&id.spelled()));
        reason.append(", which [[target]] ");
        reason.append(&text::decimal((e + 1) as u64));
        reason.append(" already covers; one artifact is shipped by one release");
        return Some(refused(reason));
    }
    None
}

/// Hold every `covers` entry to what covering means: not the target's own
/// identifier, not another target, and shipped by one release only.
pub fn covered(d: &Declaration, origin: &str) -> (r: Result<()>)
    ensures
        match spec_first_cover_problem(*d, origin@, 0) {
            Some(p) => r is Err && spec_refused(r->Err_0, p),
            None => r is Ok,
        },
{
    let mut i: usize = 0;
    while i < d.targets.len()
        invariant
            i <= d.targets@.len(),
            spec_first_cover_problem(*d, origin@, 0) == spec_first_cover_problem(*d, origin@, i as int),
        decreases d.targets@.len() - i,
    {
        let mut k: usize = 0;
        while k < d.targets[i].covers.len()
            invariant
                spec_first_cover_problem(*d, origin@, 0) == spec_first_cover_problem(*d, origin@, i as int),
                i < d.targets@.len(),
                k <= d.targets@[i as int].covers@.len(),
                spec_first_cover_in(*d, origin@, i as int, 0) == spec_first_cover_in(*d, origin@, i as int, k as int),
            decreases d.targets@[i as int].covers@.len() - k,
        {
            if let Some(e) = cover_problem(d, origin, i, k) {
                return Err(e);
            }
            k = k + 1;
        }
        i = i + 1;
    }
    Ok(())
}

fn retired_problem(d: &Declaration, origin: &str, i: usize) -> (r: Option<Error>)
    requires
        i < d.retired@.len(),
    ensures
        match spec_retired_problem(*d, origin@, i as int) {
            Some(p) => r is Some && spec_refused(r.unwrap(), p),
            None => r is None,
        },
{
    let n = d.retired.len();
    let m = d.targets.len();
    let entry = &d.retired[i];
    let here = at("retired", i, &entry.id);
    if let Err(e) = prose(&entry.why, "why", origin, &here) {
        return Some(e);
    }
    if let Some(t) = first_id(&d.targets, &entry.id, d.targets.len()) {
        let mut reason = text::concat3("the release declaration at ", origin, " has ");
        reason.append(&here);
        reason.append(" retiring what [[target]] ");
        reason.append(&text::decimal((t + 1) as u64));
        reason.append(" publishes; a retired artifact is one this repository does not publish any more",
        );
        return Some(refused(reason));
    }
    if let Some(e) = first_retired_id(&d.retired, &entry.id, i) {
        let mut reason = text::concat3("the release declaration at ", origin, " has ");
        reason.append(&here);
        reason.append(" repeating what [[retired]] ");
        reason.append(&text::decimal((e + 1) as u64));
        reason.append(" already records");
        return Some(refused(reason));
    }
    None
}

/// Hold every `[[retired]]` entry to what retirement means: it is not published any
/// more, and it is recorded once.
pub fn retired(d: &Declaration, origin: &str) -> (r: Result<()>)
    ensures
        match spec_first_retired_problem(*d, origin@, 0) {
            Some(p) => r is Err && spec_refused(r->Err_0, p),
            None => r is Ok,
        },
{
    let mut i: usize = 0;
    while i < d.retired.len()
        invariant
            i <= d.retired@.len(),
            spec_first_retired_problem(*d, origin@, 0) == spec_first_retired_problem(*d, origin@, i as int),
        decreases d.retired@.len() - i,
    {
        if let Some(e) = retired_problem(d, origin, i) {
            return Err(e);
        }
        i = i + 1;
    }
    Ok(())
}

/// Refuse a declaration whose fields are each readable but which together say
/// something no repository can mean; each refusal names the entry it is about.
pub fn validate(d: &Declaration, origin: &str) -> (r: Result<()>)
    ensures
        match spec_validation(*d, origin@) {
            Some(p) => r is Err && spec_refused(r->Err_0, p),
            None => r is Ok,
        },
{
    if d.targets.len() == 0 {
        return Err(refused(text::concat3("the release declaration at ", origin, NO_TARGETS)));
    }
    if let Some(probe) = &d.probe {
        if let Err(problem) = inside_the_repository(probe, "probe") {
            let mut reason = text::concat3("the release declaration at ", origin, " ");
            reason.append(&problem);
            return Err(refused(reason));
        }
    }
    let mut i: usize = 0;
    while i < d.targets.len()
        invariant
            d.targets@.len() > 0,
            (match d.probe {
                Some(p) => spec_path_problem(p@, "probe"@),
                None => None,
            }) is None,
            i <= d.targets@.len(),
            spec_first_target_problem(*d, origin@, 0) == spec_first_target_problem(*d, origin@, i as int),
        decreases d.targets@.len() - i,
    {
        if let Some(e) = target_problem(d, origin, i) {
            return Err(e);
        }
        i = i + 1;
    }
    covered(d, origin)?;
    retired(d, origin)
}

} // verus!
