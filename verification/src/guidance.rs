//! How a refusal names the command that resolves it, and carries text a program
//! wrote.
//!
//! Every refusal on the publication path ends in an invocation an operator or an
//! agent is meant to run, so the invocation has to survive being run: a checkout
//! under a path with a space in it, or a branch name git accepted that a shell
//! would split, must come back out of the message as the one argument it went in
//! as.

use vstd::prelude::*;

use crate::text::{
    self, spec_decimal, spec_hex_padded, spec_is_ascii_alnum, spec_is_control, spec_join,
};

verus! {

// ---------------------------------------------------------------------------
// Quoting one argument
// ---------------------------------------------------------------------------

/// Whether a character carries no meaning to a shell wherever it appears.
///
/// Deliberately a small allow-list rather than a list of what to escape: a
/// character nobody thought about is quoted, which is safe. `~` is not on it — it
/// is only special leading, and a path that starts with one is exactly the case
/// that would break.
pub open spec fn spec_bare(c: char) -> bool {
    spec_is_ascii_alnum(c) || c == '-' || c == '_' || c == '.' || c == '/' || c == '=' || c == ':'
        || c == '+' || c == ',' || c == '@'
}

fn bare(c: char) -> (b: bool)
    ensures
        b == spec_bare(c),
{
    text::is_ascii_alnum(c) || c == '-' || c == '_' || c == '.' || c == '/' || c == '=' || c
        == ':' || c == '+' || c == ',' || c == '@'
}

pub open spec fn spec_all_bare(v: Seq<char>) -> bool {
    forall|i: int| 0 <= i < v.len() ==> spec_bare(#[trigger] v[i])
}

/// What one character becomes inside single quotes: itself, except the quote,
/// which is closed, escaped and reopened — `'\''`.
pub open spec fn spec_quoted_piece(c: char) -> Seq<char> {
    if c == '\'' {
        seq!['\'', '\\', '\'', '\'']
    } else {
        seq![c]
    }
}

/// A value's characters as they are written between single quotes.
pub open spec fn spec_escape(v: Seq<char>) -> Seq<char>
    decreases v.len(),
{
    if v.len() == 0 {
        seq![]
    } else {
        spec_quoted_piece(v[0]) + spec_escape(v.drop_first())
    }
}

/// One argument, quoted where a shell would otherwise split or expand it.
pub open spec fn spec_word(v: Seq<char>) -> Seq<char> {
    if v.len() > 0 && spec_all_bare(v) {
        v
    } else {
        seq!['\''] + spec_escape(v) + seq!['\'']
    }
}

proof fn lemma_escape_push(v: Seq<char>, c: char)
    ensures
        spec_escape(v.push(c)) == spec_escape(v) + spec_quoted_piece(c),
    decreases v.len(),
{
    if v.len() == 0 {
        assert(v.push(c).drop_first() =~= seq![]);
        assert(spec_escape(seq![]) == Seq::<char>::empty());
        assert(spec_escape(v.push(c)) =~= spec_quoted_piece(c));
    } else {
        assert(v.push(c).drop_first() =~= v.drop_first().push(c));
        lemma_escape_push(v.drop_first(), c);
        assert(v.push(c)[0] == v[0]);
    }
}

/// One argument, quoted where a shell would otherwise split or expand it.
///
/// Single quotes, because inside them a POSIX shell expands nothing at all — the
/// only character that needs handling is the quote itself, and it is closed,
/// escaped, and reopened the way `printf %q` does it.
pub fn word(value: &str) -> (out: String)
    ensures
        out@ == spec_word(value@),
{
    let chars = text::chars_of(value);
    let mut all_bare = chars.len() > 0;
    let mut i: usize = 0;
    while i < chars.len()
        invariant
            chars@ == value@,
            i <= chars@.len(),
            all_bare <==> (chars@.len() > 0 && forall|j: int|
                0 <= j < i ==> spec_bare(#[trigger] chars@[j])),
        decreases chars.len() - i,
    {
        if !bare(chars[i]) {
            all_bare = false;
        }
        i = i + 1;
    }
    if all_bare {
        return text::owned(value);
    }
    let mut out = String::new();
    text::push_char(&mut out, '\'');
    let mut k: usize = 0;
    while k < chars.len()
        invariant
            chars@ == value@,
            k <= chars@.len(),
            out@ == seq!['\''] + spec_escape(chars@.take(k as int)),
        decreases chars.len() - k,
    {
        let c = chars[k];
        proof {
            assert(chars@.take(k + 1) =~= chars@.take(k as int).push(c));
            lemma_escape_push(chars@.take(k as int), c);
        }
        if c == '\'' {
            text::push_char(&mut out, '\'');
            text::push_char(&mut out, '\\');
            text::push_char(&mut out, '\'');
            text::push_char(&mut out, '\'');
        } else {
            text::push_char(&mut out, c);
        }
        assert(out@ =~= seq!['\''] + spec_escape(chars@.take(k + 1)));
        k = k + 1;
    }
    text::push_char(&mut out, '\'');
    assert(chars@.take(chars@.len() as int) =~= chars@);
    out
}

/// One runnable invocation, from the arguments it is made of: each word quoted,
/// joined by single spaces.
pub open spec fn spec_command(argv: Seq<Seq<char>>) -> Seq<char> {
    spec_join(argv.map_values(|a: Seq<char>| spec_word(a)), " "@)
}

/// One runnable invocation, from the arguments it is made of.
pub fn command(argv: &[&str]) -> (out: String)
    ensures
        out@ == spec_command(argv@.map_values(|a: &str| a@)),
{
    let ghost args = argv@.map_values(|a: &str| a@);
    let mut words: Vec<String> = Vec::new();
    let mut i: usize = 0;
    while i < argv.len()
        invariant
            args == argv@.map_values(|a: &str| a@),
            i <= argv@.len(),
            text::views(words@) == args.take(i as int).map_values(|a: Seq<char>| spec_word(a)),
        decreases argv.len() - i,
    {
        let w = word(argv[i]);
        proof {
            assert(text::views(words@.push(w)) =~= text::views(words@).push(w@));
            assert(args.take(i + 1).map_values(|a: Seq<char>| spec_word(a)) =~= args.take(
                i as int,
            ).map_values(|a: Seq<char>| spec_word(a)).push(spec_word(args[i as int])));
        }
        words.push(w);
        i = i + 1;
    }
    assert(args.take(argv@.len() as int) =~= args);
    text::join(&words, " ")
}

/// [`command`] over owned arguments.
pub fn command_of(argv: &[String]) -> (out: String)
    ensures
        out@ == spec_command(text::views(argv@)),
{
    let ghost args = text::views(argv@);
    let mut words: Vec<String> = Vec::new();
    let mut i: usize = 0;
    while i < argv.len()
        invariant
            args == text::views(argv@),
            i <= argv@.len(),
            text::views(words@) == args.take(i as int).map_values(|a: Seq<char>| spec_word(a)),
        decreases argv.len() - i,
    {
        let w = word(&argv[i]);
        proof {
            assert(text::views(words@.push(w)) =~= text::views(words@).push(w@));
            assert(args.take(i + 1).map_values(|a: Seq<char>| spec_word(a)) =~= args.take(
                i as int,
            ).map_values(|a: Seq<char>| spec_word(a)).push(spec_word(args[i as int])));
        }
        words.push(w);
        i = i + 1;
    }
    assert(args.take(argv@.len() as int) =~= args);
    text::join(&words, " ")
}

// ---------------------------------------------------------------------------
// How a shell reads a word back
// ---------------------------------------------------------------------------

/// How a POSIX shell reads one word made of plain characters, backslash escapes and
/// single-quoted runs: the argument it hands the program. `quoted` is whether the
/// reading is inside single quotes.
pub open spec fn spec_shell_read(w: Seq<char>, quoted: bool) -> Seq<char>
    decreases w.len(),
{
    if w.len() == 0 {
        seq![]
    } else if quoted {
        if w[0] == '\'' {
            spec_shell_read(w.drop_first(), false)
        } else {
            seq![w[0]] + spec_shell_read(w.drop_first(), true)
        }
    } else if w[0] == '\'' {
        spec_shell_read(w.drop_first(), true)
    } else if w[0] == '\\' && w.len() >= 2 {
        seq![w[1]] + spec_shell_read(w.skip(2), false)
    } else {
        seq![w[0]] + spec_shell_read(w.drop_first(), false)
    }
}

proof fn lemma_read_escaped(v: Seq<char>, rest: Seq<char>)
    ensures
        spec_shell_read(spec_escape(v) + rest, true) == v + spec_shell_read(rest, true),
    decreases v.len(),
{
    if v.len() == 0 {
        assert(spec_escape(v) + rest =~= rest);
    } else {
        let c = v[0];
        let tail = spec_escape(v.drop_first()) + rest;
        lemma_read_escaped(v.drop_first(), rest);
        assert(spec_escape(v) + rest =~= spec_quoted_piece(c) + tail);
        if c == '\'' {
            let w = spec_quoted_piece(c) + tail;
            assert(w.drop_first() =~= seq!['\\', '\'', '\''] + tail);
            let w1 = w.drop_first();
            assert(w1.skip(2) =~= seq!['\''] + tail);
            assert((seq!['\''] + tail).drop_first() =~= tail);
            assert(spec_shell_read(w, true) == spec_shell_read(w1, false));
            assert(spec_shell_read(w1, false) == seq!['\''] + spec_shell_read(w1.skip(2), false));
            assert(spec_shell_read(w1.skip(2), false) == spec_shell_read(tail, true));
        } else {
            assert((seq![c] + tail).drop_first() =~= tail);
        }
        assert(v =~= seq![c] + v.drop_first());
    }
}

proof fn lemma_read_bare(v: Seq<char>)
    requires
        spec_all_bare(v),
    ensures
        spec_shell_read(v, false) == v,
    decreases v.len(),
{
    if v.len() > 0 {
        assert(spec_bare(v[0]));
        assert forall|i: int| 0 <= i < v.drop_first().len() implies spec_bare(
            #[trigger] v.drop_first()[i],
        ) by {
            assert(v.drop_first()[i] == v[i + 1]);
        }
        lemma_read_bare(v.drop_first());
        assert(v =~= seq![v[0]] + v.drop_first());
    }
}

/// The promise every refusal's command rests on: a word, read back the way a
/// shell reads it, is the argument it was made from — whatever that argument holds.
pub proof fn lemma_word_reads_back(v: Seq<char>)
    ensures
        spec_shell_read(spec_word(v), false) == v,
{
    if v.len() > 0 && spec_all_bare(v) {
        lemma_read_bare(v);
    } else {
        let w = seq!['\''] + spec_escape(v) + seq!['\''];
        assert(w.drop_first() =~= spec_escape(v) + seq!['\'']);
        lemma_read_escaped(v, seq!['\'']);
        assert(spec_shell_read(seq!['\''], true) == spec_shell_read(Seq::<char>::empty(), false)) by {
            assert(seq!['\''].drop_first() =~= Seq::<char>::empty());
        }
        assert(v + Seq::<char>::empty() =~= v);
    }
}

// ---------------------------------------------------------------------------
// Lists
// ---------------------------------------------------------------------------

/// How many names a refusal spells out before it says how many more there are.
pub const LISTED_LIMIT: usize = 10;

/// A list of names as a refusal spells it — the first [`LISTED_LIMIT`] quoted, and
/// how many were left out counted rather than cut.
pub open spec fn spec_listed(values: Seq<Seq<char>>) -> Seq<char> {
    if values.len() == 0 {
        "no path git named"@
    } else {
        let shown = values.take(
            if values.len() < LISTED_LIMIT {
                values.len() as int
            } else {
                LISTED_LIMIT as int
            },
        ).map_values(|v: Seq<char>| text::spec_debug_quoted(v));
        if values.len() > LISTED_LIMIT {
            spec_join(
                shown.push("and "@ + spec_decimal((values.len() - LISTED_LIMIT) as nat) + " more"@),
                ", "@,
            )
        } else {
            spec_join(shown, ", "@)
        }
    }
}

/// A list of names as a refusal spells it — bounded, and counting what it dropped.
///
/// The values arrive from outside (git's own answer about what it left unmerged),
/// so the length is not this crate's to assume. What is left out is *counted*
/// rather than quietly cut: a truncated list read as the whole one is a report of a
/// smaller problem than the one that happened.
pub fn listed(values: &[String]) -> (out: String)
    ensures
        out@ == spec_listed(text::views(values@)),
{
    let ghost vs = text::views(values@);
    if values.len() == 0 {
        return text::owned("no path git named");
    }
    let shown_count = if values.len() < LISTED_LIMIT {
        values.len()
    } else {
        LISTED_LIMIT
    };
    let mut spelled: Vec<String> = Vec::new();
    let mut i: usize = 0;
    while i < shown_count
        invariant
            vs == text::views(values@),
            shown_count <= values@.len(),
            i <= shown_count,
            text::views(spelled@) == vs.take(i as int).map_values(
                |v: Seq<char>| text::spec_debug_quoted(v),
            ),
        decreases shown_count - i,
    {
        let q = text::debug_quoted(&values[i]);
        proof {
            assert(text::views(spelled@.push(q)) =~= text::views(spelled@).push(q@));
            assert(vs.take(i + 1).map_values(|v: Seq<char>| text::spec_debug_quoted(v)) =~= vs.take(
                i as int,
            ).map_values(|v: Seq<char>| text::spec_debug_quoted(v)).push(
                text::spec_debug_quoted(vs[i as int]),
            ));
        }
        spelled.push(q);
        i = i + 1;
    }
    if values.len() > LISTED_LIMIT {
        let dropped = values.len() - LISTED_LIMIT;
        let mut more = text::owned("and ");
        let count = text::decimal(dropped as u64);
        more.append(&count);
        more.append(" more");
        proof {
            assert(text::views(spelled@.push(more)) =~= text::views(spelled@).push(more@));
        }
        spelled.push(more);
    }
    text::join(&spelled, ", ")
}

// ---------------------------------------------------------------------------
// Text another program wrote
// ---------------------------------------------------------------------------

/// What Unicode's general category says of a character: whether it is `Cf`.
pub uninterp spec fn spec_is_format(c: char) -> bool;

/// Whether a character changes how the text around it renders without rendering as
/// anything itself — Unicode's `Cf` general category, asked of `icu_properties`.
#[verifier::external_body]
fn formatting(c: char) -> (b: bool)
    ensures
        b == spec_is_format(c),
{
    matches!(
        icu_properties::CodePointMapData::<icu_properties::props::GeneralCategory>::new().get(c),
        icu_properties::props::GeneralCategory::Format
    )
}

/// Every `\r\n` folded to `\n`, left to right, the way `str::replace` folds it.
pub open spec fn spec_fold_crlf(s: Seq<char>) -> Seq<char>
    decreases s.len(),
{
    if s.len() == 0 {
        seq![]
    } else if s.len() >= 2 && s[0] == '\r' && s[1] == '\n' {
        seq!['\n'] + spec_fold_crlf(s.skip(2))
    } else {
        seq![s[0]] + spec_fold_crlf(s.drop_first())
    }
}

/// What one character of another program's text becomes on a terminal.
pub open spec fn spec_rendered_char(c: char) -> Seq<char> {
    if c == '\n' || c == '\t' {
        seq![c]
    } else if spec_is_control(c) || spec_is_format(c) {
        "\\u{"@ + spec_hex_padded((c as u32) as nat, 4) + "}"@
    } else {
        seq![c]
    }
}

pub open spec fn spec_render_chars(s: Seq<char>) -> Seq<char>
    decreases s.len(),
{
    if s.len() == 0 {
        seq![]
    } else {
        spec_render_chars(s.drop_last()) + spec_rendered_char(s.last())
    }
}

/// Text some other program wrote, rendered for a message a terminal prints.
pub open spec fn spec_quoted_output(value: Seq<char>) -> Seq<char> {
    spec_render_chars(spec_fold_crlf(value))
}

fn fold_crlf(chars: &[char]) -> (out: Vec<char>)
    ensures
        out@ == spec_fold_crlf(chars@),
{
    let mut out: Vec<char> = Vec::new();
    let mut i: usize = 0;
    let n = chars.len();
    assert(chars@.skip(0) =~= chars@);
    while i < n
        invariant
            n == chars@.len(),
            i <= n,
            out@ + spec_fold_crlf(chars@.skip(i as int)) == spec_fold_crlf(chars@),
        decreases n - i,
    {
        let ghost rest = chars@.skip(i as int);
        if i + 1 < n && chars[i] == '\r' && chars[i + 1] == '\n' {
            assert(rest.skip(2) =~= chars@.skip(i + 2));
            assert(out@.push('\n') + spec_fold_crlf(rest.skip(2)) =~= out@ + spec_fold_crlf(rest));
            out.push('\n');
            i = i + 2;
        } else {
            assert(rest.drop_first() =~= chars@.skip(i + 1));
            assert(out@.push(chars@[i as int]) + spec_fold_crlf(rest.drop_first()) =~= out@
                + spec_fold_crlf(rest));
            out.push(chars[i]);
            i = i + 1;
        }
    }
    assert(out@ + Seq::<char>::empty() =~= out@);
    out
}

/// Text some other program wrote, rendered for a message a terminal prints.
///
/// A repository's own hook decides what it says, which makes it untrusted input on
/// its way to a terminal: what reaches the terminal is exactly the printable text
/// plus the two characters a program lays its message out with. CRLF is folded to
/// LF first; every other control character, and every character of the `Cf`
/// category, is shown as its `\u{…}` escape.
pub fn quoted_output(value: &str) -> (out: String)
    ensures
        out@ == spec_quoted_output(value@),
{
    let chars = text::chars_of(value);
    let folded = fold_crlf(&chars);
    let mut out = String::new();
    let mut i: usize = 0;
    while i < folded.len()
        invariant
            i <= folded@.len(),
            out@ == spec_render_chars(folded@.take(i as int)),
        decreases folded.len() - i,
    {
        let c = folded[i];
        assert(folded@.take(i + 1).drop_last() =~= folded@.take(i as int));
        if c == '\n' || c == '\t' {
            text::push_char(&mut out, c);
        } else if text::is_control(c) || formatting(c) {
            out.append("\\u{");
            let code: u32 = c as u32;
            let hex = text::hex_padded(code as u64, 4);
            out.append(&hex);
            out.append("}");
        } else {
            text::push_char(&mut out, c);
        }
        i = i + 1;
    }
    assert(folded@.take(folded@.len() as int) =~= folded@);
    out
}

} // verus!
