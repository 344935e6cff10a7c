//! What a gate ruled, and where its log is preserved.
//!
//! A gate is a command run in the tree a change is published from; its exit status
//! is the ruling and everything it wrote is the evidence, preserved under the run
//! root whatever it ruled.

use vstd::prelude::*;

use crate::home;
use crate::policy;
use crate::rules::Gate;
use crate::text::{self, spec_join, views};

verus! {

/// The remote a gate compares against, as the environment hands it over.
pub const COMPARISON_REMOTE_ENV: &'static str = "ONEVCS_COMPARISON_REMOTE";
/// The base a gate compares against, as the environment hands it over.
pub const COMPARISON_BASE_ENV: &'static str = "ONEVCS_COMPARISON_BASE";
/// The directory under a run root that preserved logs go in.
pub const PRESERVED_LOG_DIRNAME: &'static str = "gate-logs";
/// How many preserved logs one branch keeps.
pub const PRESERVED_LOG_ATTEMPTS: usize = 10;

/// The environment a gate judges the comparison identity by.
pub open spec fn spec_comparison_env(remote: Seq<char>, base: Seq<char>) -> Seq<(Seq<char>, Seq<char>)> {
    seq![(COMPARISON_REMOTE_ENV@, remote), (COMPARISON_BASE_ENV@, base)]
}

/// The environment a gate judges the comparison identity by: the remote and the
/// base it is to compare against.
pub fn comparison_env(remote: &str, base: &str) -> (env: Vec<(String, String)>)
    ensures
        text::pair_views(env@) == spec_comparison_env(remote@, base@),
{
    let env = vec![
        (text::owned(COMPARISON_REMOTE_ENV), text::owned(remote)),
        (text::owned(COMPARISON_BASE_ENV), text::owned(base)),
    ];
    proof {
        assert(text::pair_views(env@) =~= spec_comparison_env(remote@, base@));
    }
    env
}

/// What a gate ruled.
#[derive(Debug, Clone, Copy, PartialEq, Eq, Structural)]
pub enum Ruling {
    /// It passed.
    Passed,
    /// It turned the change down.
    Rejected,
}

impl Ruling {
    /// The ruling an exit reads as: success passes, anything else rejects.
    pub fn from_exit(succeeded: bool) -> (r: Ruling)
        ensures
            r == (if succeeded {
                Ruling::Passed
            } else {
                Ruling::Rejected
            }),
    {
        if succeeded {
            Ruling::Passed
        } else {
            Ruling::Rejected
        }
    }

    /// Whether this ruling lets the change through.
    pub fn passed(self) -> (b: bool)
        ensures
            b == (self == Ruling::Passed),
    {
        self == Ruling::Passed
    }

    /// How a report names the ruling.
    pub fn describe(self) -> (out: &'static str)
        ensures
            out@ == (match self {
                Ruling::Passed => "pass"@,
                Ruling::Rejected => "fail"@,
            }),
    {
        match self {
            Ruling::Passed => "pass",
            Ruling::Rejected => "fail",
        }
    }
}

/// What a gate ruled, everything it wrote, and the command that ran.
#[derive(Debug, Clone)]
pub struct Verdict {
    /// The ruling.
    pub ruling: Ruling,
    /// Everything the command wrote, standard output first.
    pub output: String,
    /// The command, its words joined by spaces.
    pub command: String,
}

/// What a gate that names no command says.
pub const NO_COMMAND: &'static str = "this gate names no command, so it verified nothing\n";

impl Verdict {
    /// A gate that names no command verified nothing, and is rejected.
    pub fn unnamed(argv: &[String]) -> (v: Verdict)
        ensures
            v.ruling == Ruling::Rejected,
            v.output@ == NO_COMMAND@,
            v.command@ == spec_join(views(argv@), " "@),
    {
        Verdict {
            ruling: Ruling::Rejected,
            output: text::owned(NO_COMMAND),
            command: text::join(argv, " "),
        }
    }

    /// A gate whose program could not be started is rejected, saying why.
    pub fn unstarted(argv: &[String], program: &str, error: &str) -> (v: Verdict)
        ensures
            v.ruling == Ruling::Rejected,
            v.output@ == "this gate's command "@ + text::spec_debug_quoted(program@)
                + " could not be run: "@ + error@ + "\n"@,
            v.command@ == spec_join(views(argv@), " "@),
    {
        let mut output = text::owned("this gate's command ");
        let quoted = text::debug_quoted(program);
        output.append(&quoted);
        output.append(" could not be run: ");
        output.append(error);
        output.append("\n");
        Verdict { ruling: Ruling::Rejected, output, command: text::join(argv, " ") }
    }

    /// A gate that ran: its exit is the ruling and both its streams the evidence.
    pub fn finished(argv: &[String], succeeded: bool, stdout: &str, stderr: &str) -> (v: Verdict)
        ensures
            v.ruling == Ruling::from_exit_spec(succeeded),
            v.output@ == stdout@ + stderr@,
            v.command@ == spec_join(views(argv@), " "@),
    {
        Verdict {
            ruling: Ruling::from_exit(succeeded),
            output: text::concat(stdout, stderr),
            command: text::join(argv, " "),
        }
    }
}

impl Ruling {
    /// The ruling an exit reads as.
    pub open spec fn from_exit_spec(succeeded: bool) -> Ruling {
        if succeeded {
            Ruling::Passed
        } else {
            Ruling::Rejected
        }
    }
}

/// The command a gate names itself, where it names one rather than a kind.
pub fn own_command(gate: &Gate) -> (r: Option<&Vec<String>>)
    ensures
        match *gate {
            Gate::Command { command } => r == Some(&command),
            Gate::Kind { .. } => r is None,
        },
{
    match gate {
        Gate::Command { command } => Some(command),
        Gate::Kind { .. } => None,
    }
}

/// Where one branch's preserved logs go under a run root.
pub open spec fn spec_log_directory(run_root: Seq<char>, branch: Seq<char>) -> Seq<char> {
    home::spec_path_join(
        home::spec_path_join(run_root, PRESERVED_LOG_DIRNAME@),
        policy::spec_branch_slug(branch),
    )
}

/// Where one branch's preserved logs go under a run root: `gate-logs/<slug>`.
pub fn log_directory(run_root: &str, branch: &str) -> (out: String)
    ensures
        out@ == spec_log_directory(run_root@, branch@),
{
    let logs = home::path_join(run_root, PRESERVED_LOG_DIRNAME);
    let slug = policy::branch_slug(branch);
    home::path_join(&logs, &slug)
}

/// The name of preserved log number `n`: `gate-<n, four digits at least>.log`.
pub open spec fn spec_log_name(n: nat) -> Seq<char> {
    "gate-"@ + text::spec_decimal_padded(n, 4) + ".log"@
}

/// The name of preserved log number `n`.
pub fn log_name(n: u32) -> (out: String)
    ensures
        out@ == spec_log_name(n as nat),
{
    let digits = text::decimal_padded(n as u64, 4);
    text::concat3("gate-", &digits, ".log")
}

/// The number a preserved log's file name carries, where it is one.
pub open spec fn spec_log_number(name: Seq<char>) -> Option<nat> {
    match text::spec_strip_prefix(name, "gate-"@) {
        Some(rest) => match text::spec_strip_suffix(rest, ".log"@) {
            Some(digits) => {
                let parsed = text::spec_parse_unsigned(digits);
                if parsed is Some && parsed.unwrap() <= u32::MAX {
                    parsed
                } else {
                    None
                }
            },
            None => None,
        },
        None => None,
    }
}

/// A preserved log's number reads back from the name it is written under, so the
/// highest number found is the last log written.
pub proof fn lemma_log_name_reads_back(n: u32)
    ensures
        spec_log_number(spec_log_name(n as nat)) == Some(n as nat),
{
    reveal_strlit("gate-");
    reveal_strlit(".log");
    let digits = text::spec_decimal_padded(n as nat, 4);
    text::lemma_decimal_padded_parses(n as nat, 4);
    let name = spec_log_name(n as nat);
    assert(name.take(5) =~= "gate-"@);
    let rest = name.skip(5);
    assert(rest =~= digits + ".log"@);
    assert(rest.skip(rest.len() - 4) =~= ".log"@);
    assert(rest.take(rest.len() - 4) =~= digits);
    assert(digits[0] != '+');
}

/// The number a preserved log's file name carries, where it is one.
pub fn log_number(name: &str) -> (r: Option<u32>)
    ensures
        match r {
            Some(n) => spec_log_number(name@) == Some(n as nat),
            None => spec_log_number(name@) is None,
        },
{
    let rest = match text::strip_prefix(name, "gate-") {
        Some(rest) => rest,
        None => return None,
    };
    let digits = match text::strip_suffix(&rest, ".log") {
        Some(digits) => digits,
        None => return None,
    };
    match text::parse_unsigned(&digits) {
        Some(n) => if n <= u32::MAX as u64 {
            Some(n as u32)
        } else {
            None
        },
        None => None,
    }
}

/// The highest number any of `names` carries, or `0` where none carries one.
pub open spec fn spec_highest(names: Seq<Seq<char>>) -> nat
    decreases names.len(),
{
    if names.len() == 0 {
        0
    } else {
        let rest = spec_highest(names.drop_last());
        match spec_log_number(names.last()) {
            Some(n) => if n > rest {
                n
            } else {
                rest
            },
            None => rest,
        }
    }
}

/// The highest preserved log number among a directory's entries, so the next one
/// is claimed after it.
pub fn highest(names: &[String]) -> (n: u32)
    ensures
        n == spec_highest(views(names@)),
{
    let mut best: u32 = 0;
    let mut k: usize = 0;
    while k < names.len()
        invariant
            k <= names@.len(),
            best == spec_highest(views(names@.take(k as int))),
        decreases names.len() - k,
    {
        proof {
            assert(views(names@.take(k + 1)).drop_last() =~= views(names@.take(k as int)));
            assert(views(names@.take(k + 1)).last() == names@[k as int]@);
        }
        match log_number(&names[k]) {
            Some(n) => {
                if n > best {
                    best = n;
                }
            },
            None => {},
        }
        k = k + 1;
    }
    proof {
        assert(names@.take(names@.len() as int) =~= names@);
    }
    best
}

/// Which preserved logs to remove, given a directory's logs in sorted order: the
/// oldest, until only the allowed number remain.
pub fn pruned(sorted: &[String]) -> (out: Vec<String>)
    ensures
        sorted@.len() <= PRESERVED_LOG_ATTEMPTS ==> out@.len() == 0,
        sorted@.len() > PRESERVED_LOG_ATTEMPTS ==> views(out@) == views(sorted@).take(
            sorted@.len() - PRESERVED_LOG_ATTEMPTS,
        ),
{
    let mut out: Vec<String> = Vec::new();
    if sorted.len() <= PRESERVED_LOG_ATTEMPTS {
        return out;
    }
    let excess = sorted.len() - PRESERVED_LOG_ATTEMPTS;
    let mut k: usize = 0;
    while k < excess
        invariant
            k <= excess,
            excess == sorted@.len() - PRESERVED_LOG_ATTEMPTS,
            views(out@) == views(sorted@).take(k as int),
        decreases excess - k,
    {
        let ghost before = out@;
        out.push(sorted[k].clone());
        proof {
            assert(views(out@) =~= views(before).push(sorted@[k as int]@));
            assert(views(sorted@).take(k + 1) =~= views(sorted@).take(k as int).push(sorted@[k as int]@));
        }
        k = k + 1;
    }
    out
}

/// Whether a file name is one a preserved verdict is written under.
pub fn is_verdict_name(name: &str) -> (b: bool)
    ensures
        b == (text::spec_starts_with(name@, "gate-"@) && text::spec_ends_with(name@, ".log"@)),
{
    text::str_starts_with(name, "gate-") && text::str_ends_with(name, ".log")
}

} // verus!
