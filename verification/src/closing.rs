//! The issue-closing references a squash has to carry forward.
//!
//! A `local-direct` publication lands the branch as one commit whose message this
//! crate composes, so everything else the branch's commits said is dropped. One kind
//! of line is not prose: GitHub closes an issue from `Closes #12`, `Fixes
//! owner/name#12` or `Resolves <issue URL>` only in the commit that reaches the
//! default branch, so a squash that drops those lines leaves every issue its work
//! delivered open.
//!
//! What is collected is every keyword-and-reference pair GitHub recognises, wherever
//! in a message it sits: the keywords `close`, `fix` and `resolve` in any of their
//! inflections and any case, an optional colon, and a bare `#N`, an `owner/name#N`,
//! or an issue URL. Each is written back as one line, `<Keyword> <reference>`.

use vstd::prelude::*;

use crate::text::{
    self, ascii_upper, chars_of, is_alphanumeric, is_ascii_alnum, is_ascii_alpha, is_ascii_digit,
    is_whitespace, spec_all, spec_ascii_lower, spec_ascii_lower_seq, spec_ascii_upper,
    spec_char_is_alphanumeric, spec_is_ascii_alnum, spec_is_ascii_alpha, spec_is_ascii_digit,
    spec_is_whitespace, spec_leading, spec_lines, spec_lowercase, spec_split, spec_split_once,
    spec_starts_with, spec_trailing, str_eq,
};

verus! {

/// One closing reference, as it is written back.
pub struct Closing {
    /// The keyword, capitalised: `Closes`, `Fixed`.
    pub keyword: String,
    /// The issue, as `#N`, `owner/name#N`, or the URL of an issue on a host other
    /// than `github.com`.
    pub reference: String,
}

impl View for Closing {
    type V = (Seq<char>, Seq<char>);

    open spec fn view(&self) -> (Seq<char>, Seq<char>) {
        (self.keyword@, self.reference@)
    }
}

// ---------------------------------------------------------------------------
// What a reference is
// ---------------------------------------------------------------------------

pub open spec fn spec_is_number(t: Seq<char>) -> bool {
    t.len() > 0 && forall|i: int| 0 <= i < t.len() ==> spec_is_ascii_digit(#[trigger] t[i])
}

pub open spec fn spec_is_owner(t: Seq<char>) -> bool {
    t.len() > 0 && forall|i: int|
        0 <= i < t.len() ==> spec_is_ascii_alnum(#[trigger] t[i]) || t[i] == '-'
}

pub open spec fn spec_is_name(t: Seq<char>) -> bool {
    t.len() > 0 && forall|i: int|
        0 <= i < t.len() ==> spec_is_ascii_alnum(#[trigger] t[i]) || t[i] == '-' || t[i] == '_'
            || t[i] == '.'
}

/// `owner/name#number`, the one spelling an issue on GitHub is normalised to.
pub open spec fn spec_short_form(owner: Seq<char>, name: Seq<char>, number: Seq<char>) -> Seq<
    char,
> {
    owner + "/"@ + name + "#"@ + number
}

/// The issue one token names, normalised, or `None` when it names none.
pub open spec fn spec_issue(token: Seq<char>) -> Option<Seq<char>> {
    if token.len() > 0 && token[0] == '#' {
        if spec_is_number(token.drop_first()) {
            Some(token)
        } else {
            None
        }
    } else if spec_starts_with(token, "https://"@) || spec_starts_with(token, "http://"@) {
        let url = if spec_starts_with(token, "https://"@) {
            token.skip("https://"@.len() as int)
        } else {
            token.skip("http://"@.len() as int)
        };
        let parts = spec_split(url, '/');
        if parts.len() == 5 && parts[3] == "issues"@ && spec_is_owner(parts[1]) && spec_is_name(
            parts[2],
        ) && spec_is_number(parts[4]) {
            if spec_ascii_lower_seq(parts[0]) == spec_ascii_lower_seq("github.com"@) {
                Some(spec_short_form(parts[1], parts[2], parts[4]))
            } else {
                Some(token)
            }
        } else {
            None
        }
    } else {
        match spec_split_once(token, '#') {
            None => None,
            Some((repository, number)) => match spec_split_once(repository, '/') {
                None => None,
                Some((owner, name)) => if spec_is_owner(owner) && spec_is_name(name)
                    && spec_is_number(number) {
                    Some(spec_short_form(owner, name, number))
                } else {
                    None
                },
            },
        }
    }
}

fn all_digits(t: &[char]) -> (b: bool)
    ensures
        b == spec_is_number(t@),
{
    if t.len() == 0 {
        return false;
    }
    let mut i: usize = 0;
    while i < t.len()
        invariant
            i <= t@.len(),
            forall|j: int| 0 <= j < i ==> spec_is_ascii_digit(t@[j]),
        decreases t.len() - i,
    {
        if !is_ascii_digit(t[i]) {
            return false;
        }
        i = i + 1;
    }
    true
}

fn is_number(t: &str) -> (b: bool)
    ensures
        b == spec_is_number(t@),
{
    let chars = chars_of(t);
    all_digits(&chars)
}

fn is_owner(t: &str) -> (b: bool)
    ensures
        b == spec_is_owner(t@),
{
    let chars = chars_of(t);
    if chars.len() == 0 {
        return false;
    }
    let mut i: usize = 0;
    while i < chars.len()
        invariant
            chars@ == t@,
            i <= chars@.len(),
            forall|j: int| 0 <= j < i ==> spec_is_ascii_alnum(chars@[j]) || chars@[j] == '-',
        decreases chars.len() - i,
    {
        if !(is_ascii_alnum(chars[i]) || chars[i] == '-') {
            return false;
        }
        i = i + 1;
    }
    true
}

fn is_name(t: &str) -> (b: bool)
    ensures
        b == spec_is_name(t@),
{
    let chars = chars_of(t);
    if chars.len() == 0 {
        return false;
    }
    let mut i: usize = 0;
    while i < chars.len()
        invariant
            chars@ == t@,
            i <= chars@.len(),
            forall|j: int|
                0 <= j < i ==> spec_is_ascii_alnum(chars@[j]) || chars@[j] == '-' || chars@[j]
                    == '_' || chars@[j] == '.',
        decreases chars.len() - i,
    {
        let c = chars[i];
        if !(is_ascii_alnum(c) || c == '-' || c == '_' || c == '.') {
            return false;
        }
        i = i + 1;
    }
    true
}

fn short_form(owner: &str, name: &str, number: &str) -> (out: String)
    ensures
        out@ == spec_short_form(owner@, name@, number@),
{
    let mut out = text::concat(owner, "/");
    out.append(name);
    out.append("#");
    out.append(number);
    out
}

/// The issue one token names, normalised, or `None` when it names none.
fn issue(token: &str) -> (r: Option<String>)
    ensures
        r matches Some(s) ==> spec_issue(token@) == Some(s@),
        r is None ==> spec_issue(token@) is None,
{
    let chars = chars_of(token);
    if chars.len() > 0 && chars[0] == '#' {
        let number = text::string_of(&chars, 1, chars.len());
        assert(number@ =~= token@.drop_first());
        if is_number(&number) {
            return Some(text::owned(token));
        }
        return None;
    }
    let https = chars_of("https://");
    let http = chars_of("http://");
    let secure = text::starts_with(&chars, &https);
    if secure || text::starts_with(&chars, &http) {
        let skip = if secure {
            https.len()
        } else {
            http.len()
        };
        let url = text::string_of(&chars, skip, chars.len());
        assert(url@ =~= token@.skip(skip as int));
        let parts = text::split(&url, '/');
        proof {
            assert(parts@.len() == text::views(parts@).len());
        }
        if parts.len() != 5 {
            return None;
        }
        proof {
            assert forall|i: int| 0 <= i < 5 implies text::views(parts@)[i] == parts@[i]@ by {}
        }
        let issues = str_eq(&parts[3], "issues");
        if !(issues && is_owner(&parts[1]) && is_name(&parts[2]) && is_number(&parts[4])) {
            return None;
        }
        let host = text::to_ascii_lower(&parts[0]);
        let github = text::to_ascii_lower("github.com");
        if str_eq(&host, &github) {
            return Some(short_form(&parts[1], &parts[2], &parts[4]));
        }
        return Some(text::owned(token));
    }
    match text::split_once(token, '#') {
        None => None,
        Some((repository, number)) => match text::split_once(&repository, '/') {
            None => None,
            Some((owner, name)) => {
                if is_owner(&owner) && is_name(&name) && is_number(&number) {
                    Some(short_form(&owner, &name, &number))
                } else {
                    None
                }
            },
        },
    }
}

// ---------------------------------------------------------------------------
// What follows a keyword
// ---------------------------------------------------------------------------

/// Where a reference ends: white space, or punctuation that closes a sentence's
/// clause around it.
pub open spec fn spec_is_stop(c: char) -> bool {
    spec_is_whitespace(c) || c == ',' || c == ';' || c == ')' || c == ']' || c == '>' || c == '"'
}

/// What a reference is allowed to trail and still be one.
pub open spec fn spec_is_mark(c: char) -> bool {
    c == '.' || c == ':' || c == '!' || c == '?'
}

pub open spec fn not_stop() -> spec_fn(char) -> bool {
    |c: char| !spec_is_stop(c)
}

pub open spec fn mark() -> spec_fn(char) -> bool {
    |c: char| spec_is_mark(c)
}

pub open spec fn ascii_alpha() -> spec_fn(char) -> bool {
    |c: char| spec_is_ascii_alpha(c)
}

pub open spec fn whitespace() -> spec_fn(char) -> bool {
    |c: char| spec_is_whitespace(c)
}

/// The reference a keyword is followed by, and how many characters of `after` it
/// took.
///
/// The keyword has to be followed by a colon, whitespace, or both — `Closes#12` is
/// not a keyword GitHub reads — and the reference has to end where the word does, so
/// `#12abc` names nothing.
pub open spec fn spec_reference_after(after: Seq<char>) -> Option<(Seq<char>, int)> {
    let colon: int = if after.len() > 0 && after[0] == ':' {
        1
    } else {
        0
    };
    let spaced = spec_leading(after.skip(colon), whitespace());
    if colon + spaced == 0 {
        None
    } else {
        let start = colon + spaced;
        let candidate = after.skip(start);
        let clause = candidate.take(spec_leading(candidate, not_stop()) as int);
        let token = clause.take(clause.len() - spec_trailing(clause, mark()));
        match spec_issue(token) {
            Some(reference) => Some((reference, start + token.len())),
            None => None,
        }
    }
}

#[verifier::rlimit(40)]
fn reference_after(line: &[char], from: usize) -> (r: Option<(String, usize)>)
    requires
        from <= line@.len(),
    ensures
        match r {
            Some((reference, used)) => spec_reference_after(line@.skip(from as int)) == Some(
                (reference@, used as int),
            ) && from + used <= line@.len(),
            None => spec_reference_after(line@.skip(from as int)) is None,
        },
{
    let ghost after = line@.skip(from as int);
    let n = line.len();
    let colon: usize = if from < n && line[from] == ':' {
        1
    } else {
        0
    };
    let mut p = from + colon;
    while p < n && is_whitespace(line[p])
        invariant
            n == line@.len(),
            from + colon <= p <= n,
            forall|j: int| from + colon <= j < p ==> spec_is_whitespace(line@[j]),
        decreases n - p,
    {
        p = p + 1;
    }
    proof {
        let s = after.skip(colon as int);
        assert forall|j: int| 0 <= j < p - from - colon implies (whitespace())(s[j]) by {
            assert(s[j] == line@[from + colon + j]);
        }
        if p - from - colon < s.len() {
            assert(s[p - from - colon] == line@[p as int]);
        }
        text::lemma_leading_is(s, whitespace(), p - from - colon);
    }
    if p == from {
        return None;
    }
    let mut e = p;
    while e < n && !(is_whitespace(line[e]) || line[e] == ',' || line[e] == ';' || line[e] == ')'
        || line[e] == ']' || line[e] == '>' || line[e] == '"')
        invariant
            n == line@.len(),
            p <= e <= n,
            forall|j: int| p <= j < e ==> !spec_is_stop(line@[j]),
        decreases n - e,
    {
        e = e + 1;
    }
    let ghost candidate = after.skip(p - from);
    proof {
        assert(candidate =~= line@.skip(p as int));
        assert forall|j: int| 0 <= j < e - p implies (not_stop())(candidate[j]) by {
            assert(candidate[j] == line@[p + j]);
        }
        if e - p < candidate.len() {
            assert(candidate[e - p] == line@[e as int]);
        }
        text::lemma_leading_is(candidate, not_stop(), e - p);
    }
    let mut t = e;
    while t > p && (line[t - 1] == '.' || line[t - 1] == ':' || line[t - 1] == '!' || line[t - 1]
        == '?')
        invariant
            n == line@.len(),
            p <= t <= e <= n,
            forall|j: int| t <= j < e ==> spec_is_mark(line@[j]),
        decreases t,
    {
        t = t - 1;
    }
    let ghost clause = candidate.take(e - p);
    proof {
        assert(clause =~= line@.subrange(p as int, e as int));
        assert forall|j: int| clause.len() - (e - t) <= j < clause.len() implies (mark())(clause[j]) by {
            assert(clause[j] == line@[p + j]);
        }
        if e - t < clause.len() {
            assert(clause[clause.len() - (e - t) - 1] == line@[t - 1]);
        }
        text::lemma_trailing_is(clause, mark(), e - t);
        assert(clause.take(clause.len() - (e - t)) =~= line@.subrange(p as int, t as int));
    }
    let token = text::string_of(line, p, t);
    match issue(&token) {
        Some(reference) => Some((reference, t - from)),
        None => None,
    }
}

// ---------------------------------------------------------------------------
// Scanning a line
// ---------------------------------------------------------------------------

/// A keyword GitHub reads as closing an issue, lowercased.
pub open spec fn spec_is_keyword(word: Seq<char>) -> bool {
    ||| word == "close"@
    ||| word == "closes"@
    ||| word == "closed"@
    ||| word == "fix"@
    ||| word == "fixes"@
    ||| word == "fixed"@
    ||| word == "resolve"@
    ||| word == "resolves"@
    ||| word == "resolved"@
}

fn is_keyword(word: &str) -> (b: bool)
    ensures
        b == spec_is_keyword(word@),
{
    str_eq(word, "close") || str_eq(word, "closes") || str_eq(word, "closed") || str_eq(
        word,
        "fix",
    ) || str_eq(word, "fixes") || str_eq(word, "fixed") || str_eq(word, "resolve") || str_eq(
        word,
        "resolves",
    ) || str_eq(word, "resolved")
}

/// A keyword as it is written back: lowercase with its first letter capitalised.
pub open spec fn spec_capitalised(word: Seq<char>) -> Seq<char> {
    if word.len() == 0 {
        seq![]
    } else {
        seq![spec_ascii_upper(spec_ascii_lower(word[0]))] + spec_ascii_lower_seq(
            word.drop_first(),
        )
    }
}

fn capitalised(word: &str) -> (out: String)
    ensures
        out@ == spec_capitalised(word@),
{
    let lower = text::to_ascii_lower(word);
    let chars = chars_of(&lower);
    if chars.len() == 0 {
        return String::new();
    }
    let mut out = String::new();
    text::push_char(&mut out, ascii_upper(chars[0]));
    let rest = text::string_of(&chars, 1, chars.len());
    out.append(&rest);
    assert(out@ =~= spec_capitalised(word@));
    out
}

/// Whether a word starting at `at` starts one: the line opens there, or what
/// precedes it is neither alphanumeric nor `_`.
pub open spec fn spec_starts_a_word(line: Seq<char>, at: int) -> bool {
    at == 0 || (!spec_char_is_alphanumeric(line[at - 1]) && line[at - 1] != '_')
}

/// A reference read after a keyword consumes at least one character of what follows
/// it and never more than there is, so a scan that moves past it always advances.
pub proof fn lemma_reference_within(after: Seq<char>)
    ensures
        spec_reference_after(after) matches Some((r, used)) ==> 0 < used <= after.len(),
{
    let colon: int = if after.len() > 0 && after[0] == ':' {
        1
    } else {
        0
    };
    let s = after.skip(colon);
    text::lemma_leading(s, whitespace());
    let start = colon + spec_leading(s, whitespace());
    if start > 0 {
        let candidate = after.skip(start);
        text::lemma_leading(candidate, not_stop());
        let clause = candidate.take(spec_leading(candidate, not_stop()) as int);
        text::lemma_trailing(clause, mark());
    }
}

/// Every closing reference in `line` from position `at` on.
pub open spec fn spec_in_line_from(line: Seq<char>, at: int) -> Seq<(Seq<char>, Seq<char>)>
    decreases line.len() - at,
{
    if at < 0 || at >= line.len() {
        seq![]
    } else {
        let rest = line.skip(at);
        let wl = spec_leading(rest, ascii_alpha()) as int;
        proof {
            text::lemma_leading(rest, ascii_alpha());
        }
        if wl > 0 && spec_starts_a_word(line, at) {
            let word = rest.take(wl);
            let found = if spec_is_keyword(spec_ascii_lower_seq(word)) {
                spec_reference_after(rest.skip(wl))
            } else {
                None
            };
            match found {
                Some((reference, used)) => {
                    proof {
                        lemma_reference_within(rest.skip(wl));
                    }
                    seq![(spec_capitalised(word), reference)] + spec_in_line_from(
                        line,
                        at + wl + used,
                    )
                },
                None => spec_in_line_from(line, at + wl),
            }
        } else {
            spec_in_line_from(line, at + 1)
        }
    }
}

/// Every closing reference in one line, in the order they appear.
pub open spec fn spec_in_line(line: Seq<char>) -> Seq<(Seq<char>, Seq<char>)> {
    spec_in_line_from(line, 0)
}

pub open spec fn closing_views(v: Seq<Closing>) -> Seq<(Seq<char>, Seq<char>)> {
    v.map_values(|c: Closing| c@)
}

/// Every closing reference in one line.
fn in_line(line: &[char]) -> (found: Vec<Closing>)
    ensures
        closing_views(found@) == spec_in_line(line@),
{
    let n = line.len();
    let mut found: Vec<Closing> = Vec::new();
    let mut at: usize = 0;
    while at < n
        invariant
            n == line@.len(),
            at <= n,
            closing_views(found@) + spec_in_line_from(line@, at as int) == spec_in_line(line@),
        decreases n - at,
    {
        let ghost rest = line@.skip(at as int);
        let mut wend = at;
        while wend < n && is_ascii_alpha(line[wend])
            invariant
                n == line@.len(),
                at <= wend <= n,
                forall|j: int| at <= j < wend ==> spec_is_ascii_alpha(line@[j]),
            decreases n - wend,
        {
            wend = wend + 1;
        }
        proof {
            assert forall|j: int| 0 <= j < wend - at implies (ascii_alpha())(rest[j]) by {
                assert(rest[j] == line@[at + j]);
            }
            if wend - at < rest.len() {
                assert(rest[wend - at] == line@[wend as int]);
            }
            text::lemma_leading_is(rest, ascii_alpha(), wend - at);
        }
        let starts = at == 0 || (!is_alphanumeric(line[at - 1]) && line[at - 1] != '_');
        if wend > at && starts {
            let word = text::string_of(line, at, wend);
            assert(word@ =~= rest.take(wend - at));
            let lowered = text::to_ascii_lower(&word);
            let mut took: Option<(String, usize)> = None;
            if is_keyword(&lowered) {
                proof {
                    assert(line@.skip(wend as int) =~= rest.skip(wend - at));
                }
                took = reference_after(line, wend);
            }
            match took {
                Some((reference, used)) => {
                    let keyword = capitalised(&word);
                    let closing = Closing { keyword, reference };
                    proof {
                        assert(closing_views(found@.push(closing)) =~= closing_views(found@).push(
                            closing@,
                        ));
                    }
                    found.push(closing);
                    at = wend + used;
                },
                None => {
                    at = wend;
                },
            }
        } else {
            at = at + 1;
        }
    }
    proof {
        assert(closing_views(found@) + seq![] =~= closing_views(found@));
    }
    found
}

// ---------------------------------------------------------------------------
// Across messages
// ---------------------------------------------------------------------------

/// Every closing reference in a list of lines, in order.
pub open spec fn spec_lines_closings(lines: Seq<Seq<char>>) -> Seq<(Seq<char>, Seq<char>)>
    decreases lines.len(),
{
    if lines.len() == 0 {
        seq![]
    } else {
        spec_lines_closings(lines.drop_last()) + spec_in_line(lines.last())
    }
}

/// Every closing reference in a list of messages, in order.
pub open spec fn spec_messages_closings(messages: Seq<Seq<char>>) -> Seq<(Seq<char>, Seq<char>)>
    decreases messages.len(),
{
    if messages.len() == 0 {
        seq![]
    } else {
        spec_messages_closings(messages.drop_last()) + spec_lines_closings(
            spec_lines(messages.last()),
        )
    }
}

/// The closings kept from a list: one per issue, the first that named it.
///
/// Two lines closing the same issue are one: which keyword closed it does not change
/// what the host does, and a squash naming an issue twice reads as two deliveries.
pub open spec fn spec_kept(cs: Seq<(Seq<char>, Seq<char>)>) -> Seq<(Seq<char>, Seq<char>)>
    decreases cs.len(),
{
    if cs.len() == 0 {
        seq![]
    } else {
        let kept = spec_kept(cs.drop_last());
        if exists|i: int|
            0 <= i < kept.len() && spec_lowercase(#[trigger] kept[i].1) == spec_lowercase(
                cs.last().1,
            ) {
            kept
        } else {
            kept.push(cs.last())
        }
    }
}

/// One closing as it is written back, `<Keyword> <reference>`.
pub open spec fn spec_rendered(c: (Seq<char>, Seq<char>)) -> Seq<char> {
    c.0 + " "@ + c.1
}

/// The closing lines a set of messages carries.
pub open spec fn spec_closing_lines(messages: Seq<Seq<char>>) -> Seq<Seq<char>> {
    spec_kept(spec_messages_closings(messages)).map_values(
        |c: (Seq<char>, Seq<char>)| spec_rendered(c),
    )
}

pub open spec fn str_views(v: Seq<&str>) -> Seq<Seq<char>> {
    v.map_values(|s: &str| s@)
}

/// Every closing reference one message carries.
fn closings_of(message: &str) -> (found: Vec<Closing>)
    ensures
        closing_views(found@) == spec_lines_closings(spec_lines(message@)),
{
    let lines = text::lines(message);
    let ghost ls = spec_lines(message@);
    let mut found: Vec<Closing> = Vec::new();
    let mut k: usize = 0;
    while k < lines.len()
        invariant
            text::views(lines@) == ls,
            k <= lines@.len(),
            closing_views(found@) == spec_lines_closings(ls.take(k as int)),
        decreases lines.len() - k,
    {
        let chars = chars_of(&lines[k]);
        assert(chars@ == ls[k as int]);
        let more = in_line(&chars);
        let ghost before = closing_views(found@);
        let mut m: usize = 0;
        while m < more.len()
            invariant
                m <= more@.len(),
                closing_views(found@) == before + closing_views(more@).take(m as int),
            decreases more.len() - m,
        {
            let c = Closing { keyword: text::owned(&more[m].keyword), reference: text::owned(&more[m].reference) };
            proof {
                assert(closing_views(found@.push(c)) =~= closing_views(found@).push(c@));
                assert(closing_views(more@).take(m + 1) =~= closing_views(more@).take(m as int).push(
                    c@,
                ));
            }
            found.push(c);
            m = m + 1;
        }
        proof {
            assert(closing_views(more@).take(more@.len() as int) =~= closing_views(more@));
            assert(ls.take(k + 1).drop_last() =~= ls.take(k as int));
        }
        k = k + 1;
    }
    assert(ls.take(lines@.len() as int) =~= ls);
    found
}

/// The distinct closing lines `messages` carry, in the order they first appear.
///
/// Two lines closing the same issue are one: which keyword closed it does not change
/// what the host does, and a squash naming an issue twice reads as two deliveries.
pub fn lines(messages: &[&str]) -> (answer: Vec<String>)
    ensures
        text::views(answer@) == spec_closing_lines(str_views(messages@)),
{
    let ghost ms = str_views(messages@);
    let mut all: Vec<Closing> = Vec::new();
    let mut k: usize = 0;
    while k < messages.len()
        invariant
            ms == str_views(messages@),
            k <= messages@.len(),
            closing_views(all@) == spec_messages_closings(ms.take(k as int)),
        decreases messages.len() - k,
    {
        let more = closings_of(messages[k]);
        let ghost before = closing_views(all@);
        let mut m: usize = 0;
        let mut more = more;
        while m < more.len()
            invariant
                m <= more@.len(),
                closing_views(all@) == before + closing_views(more@).take(m as int),
            decreases more.len() - m,
        {
            let c = Closing { keyword: text::owned(&more[m].keyword), reference: text::owned(&more[m].reference) };
            proof {
                assert(closing_views(all@.push(c)) =~= closing_views(all@).push(c@));
                assert(closing_views(more@).take(m + 1) =~= closing_views(more@).take(m as int).push(
                    c@,
                ));
            }
            all.push(c);
            m = m + 1;
        }
        proof {
            assert(closing_views(more@).take(more@.len() as int) =~= closing_views(more@));
            assert(ms.take(k + 1).drop_last() =~= ms.take(k as int));
            assert(ms[k as int] == messages@[k as int]@);
        }
        k = k + 1;
    }
    assert(ms.take(messages@.len() as int) =~= ms);
    let ghost cs = closing_views(all@);
    let mut seen: Vec<String> = Vec::new();
    let mut answer: Vec<String> = Vec::new();
    let mut i: usize = 0;
    while i < all.len()
        invariant
            cs == closing_views(all@),
            i <= all@.len(),
            seen@.len() == spec_kept(cs.take(i as int)).len(),
            forall|j: int|
                0 <= j < seen@.len() ==> #[trigger] seen@[j]@ == spec_lowercase(
                    spec_kept(cs.take(i as int))[j].1,
                ),
            text::views(answer@) == spec_kept(cs.take(i as int)).map_values(
                |c: (Seq<char>, Seq<char>)| spec_rendered(c),
            ),
        decreases all.len() - i,
    {
        let ghost kept = spec_kept(cs.take(i as int));
        let key = text::lowercase(&all[i].reference);
        let mut found = false;
        let mut j: usize = 0;
        while j < seen.len()
            invariant
                j <= seen@.len(),
                found <==> exists|q: int| 0 <= q < j && seen@[q]@ == key@,
            decreases seen.len() - j,
        {
            if str_eq(&seen[j], &key) {
                found = true;
            }
            j = j + 1;
        }
        proof {
            assert(cs.take(i + 1).drop_last() =~= cs.take(i as int));
            assert(cs.take(i + 1).last() == cs[i as int]);
            assert(cs[i as int] == all@[i as int]@);
            if found {
                let q = choose|q: int| 0 <= q < seen@.len() && seen@[q]@ == key@;
                assert(spec_lowercase(kept[q].1) == spec_lowercase(cs[i as int].1));
            } else {
                assert forall|q: int| 0 <= q < kept.len() implies spec_lowercase(#[trigger] kept[q].1)
                    != spec_lowercase(cs[i as int].1) by {
                    assert(seen@[q]@ == spec_lowercase(kept[q].1));
                }
            }
        }
        if !found {
            let mut line = text::concat(&all[i].keyword, " ");
            line.append(&all[i].reference);
            proof {
                assert(text::views(answer@.push(line)) =~= text::views(answer@).push(line@));
                assert(kept.push(cs[i as int]).map_values(
                    |c: (Seq<char>, Seq<char>)| spec_rendered(c),
                ) =~= kept.map_values(|c: (Seq<char>, Seq<char>)| spec_rendered(c)).push(
                    spec_rendered(cs[i as int]),
                ));
            }
            answer.push(line);
            seen.push(key);
        }
        i = i + 1;
    }
    assert(cs.take(all@.len() as int) =~= cs);
    answer
}

// ---------------------------------------------------------------------------
// Laws
// ---------------------------------------------------------------------------

/// A keyword is written back as the same word with its first letter uppercase and
/// every other letter lowercase, whatever case it was written in.
pub proof fn lemma_keyword_written_capitalised(word: Seq<char>)
    requires
        word.len() > 0,
        forall|i: int| 0 <= i < word.len() ==> spec_is_ascii_alpha(#[trigger] word[i]),
    ensures
        spec_capitalised(word).len() == word.len(),
        'A' <= spec_capitalised(word)[0] <= 'Z',
        spec_capitalised(word)[0] as int == word[0] as int || spec_capitalised(word)[0] as int + 32
            == word[0] as int,
        forall|i: int|
            1 <= i < word.len() ==> 'a' <= #[trigger] spec_capitalised(word)[i] <= 'z' && (
            spec_capitalised(word)[i] as int == word[i] as int || spec_capitalised(word)[i] as int
                == word[i] as int + 32),
{
    let c = word[0];
    assert(spec_is_ascii_alpha(c));
    let l = spec_ascii_lower(c);
    if text::spec_is_ascii_upper(c) {
        assert(l as int == c as int + 32);
    }
    assert('a' <= l <= 'z');
    assert(spec_ascii_upper(l) as int == l as int - 32);
    assert forall|i: int| 1 <= i < word.len() implies 'a' <= #[trigger] spec_capitalised(word)[i]
        <= 'z' && (spec_capitalised(word)[i] as int == word[i] as int || spec_capitalised(word)[i] as int
        == word[i] as int + 32) by {
        assert(spec_capitalised(word)[i] == spec_ascii_lower(word[i]));
        assert(spec_is_ascii_alpha(word[i]));
        if text::spec_is_ascii_upper(word[i]) {
            assert(spec_ascii_lower(word[i]) as int == word[i] as int + 32);
        }
    }
}

/// A message holding no line break is one line.
proof fn lemma_one_line(m: Seq<char>)
    requires
        m.len() > 0,
        forall|j: int| 0 <= j < m.len() ==> m[j] != '\n',
    ensures
        spec_lines(m) == seq![m],
{
    text::lemma_index_of_is(m, '\n', -1);
}

/// Every keyword GitHub reads as closing an issue — `close`, `fix` and `resolve` in
/// each of their inflections, in any case — closes the issue that follows it: a
/// message that is the keyword, a space and `#N` carries exactly one closing line,
/// the keyword capitalised and then ` #N`.
pub proof fn lemma_every_keyword_closes(word: Seq<char>, number: Seq<char>)
    requires
        forall|i: int| 0 <= i < word.len() ==> spec_is_ascii_alpha(#[trigger] word[i]),
        ({
            let k = spec_ascii_lower_seq(word);
            ||| k == "close"@
            ||| k == "closes"@
            ||| k == "closed"@
            ||| k == "fix"@
            ||| k == "fixes"@
            ||| k == "fixed"@
            ||| k == "resolve"@
            ||| k == "resolves"@
            ||| k == "resolved"@
        }),
        spec_is_number(number),
    ensures
        spec_closing_lines(seq![word + " #"@ + number]) == seq![spec_capitalised(word) + " #"@ + number],
{
    reveal_strlit(" #");
    reveal_strlit(" ");
    reveal_strlit("#");
    let after = " #"@ + number;
    let m = word + after;
    assert(word + " #"@ + number == m);
    assert(spec_is_keyword(spec_ascii_lower_seq(word)));
    reveal_strlit("close");
    reveal_strlit("closes");
    reveal_strlit("closed");
    reveal_strlit("fix");
    reveal_strlit("fixes");
    reveal_strlit("fixed");
    reveal_strlit("resolve");
    reveal_strlit("resolves");
    reveal_strlit("resolved");
    assert(spec_ascii_lower_seq(word).len() == word.len());
    assert(word.len() > 0);
    // The message is one line.
    assert forall|j: int| 0 <= j < m.len() implies m[j] != '\n' by {
        if j < word.len() {
            assert(m[j] == word[j]);
            assert(spec_is_ascii_alpha(word[j]));
        } else if j == word.len() {
            assert(m[j] == ' ');
        } else if j == word.len() + 1 {
            assert(m[j] == '#');
        } else {
            assert(m[j] == number[j - word.len() - 2]);
            assert(spec_is_ascii_digit(number[j - word.len() - 2]));
        }
    }
    assert(m.len() > 0);
    lemma_one_line(m);
    // The word is read whole.
    let rest = m.skip(0);
    assert(rest =~= m);
    assert forall|j: int| 0 <= j < word.len() implies (ascii_alpha())(rest[j]) by {
        assert(rest[j] == word[j]);
    }
    assert(rest[word.len() as int] == ' ');
    text::lemma_leading_is(rest, ascii_alpha(), word.len() as int);
    assert(rest.take(word.len() as int) =~= word);
    assert(rest.skip(word.len() as int) =~= after);
    // The reference after it.
    assert(after[0] == ' ');
    let skipped = after.skip(0);
    assert(skipped =~= after);
    assert(after[1] == '#');
    assert forall|j: int| 0 <= j < 1 implies (whitespace())(skipped[j]) by {
        assert(skipped[0] == ' ');
    }
    text::lemma_leading_is(skipped, whitespace(), 1);
    let candidate = after.skip(1);
    assert(candidate =~= "#"@ + number);
    assert forall|j: int| 0 <= j < candidate.len() implies (not_stop())(candidate[j]) by {
        if j == 0 {
            assert(candidate[0] == '#');
        } else {
            assert(candidate[j] == number[j - 1]);
            assert(spec_is_ascii_digit(number[j - 1]));
        }
    }
    text::lemma_leading_is(candidate, not_stop(), candidate.len() as int);
    let clause = candidate.take(candidate.len() as int);
    assert(clause =~= candidate);
    assert(clause[clause.len() - 1] == number[number.len() - 1]);
    assert(spec_is_ascii_digit(number[number.len() - 1]));
    text::lemma_trailing_is(clause, mark(), 0);
    let token = clause.take(clause.len() as int);
    assert(token =~= candidate);
    assert(token.drop_first() =~= number);
    assert(spec_issue(token) == Some(token));
    assert(spec_reference_after(after) == Some((token, (1 + token.len()) as int)));
    assert(word.len() + 1 + token.len() == m.len());
    let found = seq![(spec_capitalised(word), token)];
    assert(spec_in_line_from(m, m.len() as int) == Seq::<(Seq<char>, Seq<char>)>::empty());
    assert(spec_starts_a_word(m, 0));
    assert(spec_leading(rest, ascii_alpha()) == word.len());
    assert(spec_is_keyword(spec_ascii_lower_seq(rest.take(word.len() as int))));
    assert(spec_reference_after(rest.skip(word.len() as int)) == Some((token, (1 + token.len()) as int)));
    assert(spec_in_line_from(m, 0) == seq![(spec_capitalised(rest.take(word.len() as int)), token)]
        + spec_in_line_from(m, m.len() as int));
    assert(spec_in_line(m) =~= found);
    // Across the one message.
    let ms = seq![m];
    assert(ms.drop_last() =~= Seq::<Seq<char>>::empty());
    assert(spec_lines_closings(seq![m]) =~= spec_lines_closings(seq![m].drop_last()) + spec_in_line(m));
    assert(seq![m].drop_last() =~= Seq::<Seq<char>>::empty());
    assert(spec_lines_closings(seq![m]) =~= found);
    assert(ms.last() == m);
    assert(spec_messages_closings(ms) == spec_messages_closings(ms.drop_last()) + spec_lines_closings(
        spec_lines(ms.last()),
    ));
    assert(spec_messages_closings(ms) =~= found);
    assert(found.drop_last() =~= Seq::<(Seq<char>, Seq<char>)>::empty());
    assert(spec_kept(Seq::<(Seq<char>, Seq<char>)>::empty()) =~= Seq::<(Seq<char>, Seq<char>)>::empty());
    assert(spec_kept(found.drop_last()) =~= Seq::<(Seq<char>, Seq<char>)>::empty());
    assert(spec_kept(found) =~= Seq::<(Seq<char>, Seq<char>)>::empty().push(found.last()));
    assert(spec_kept(found) =~= found);
    assert(spec_rendered(found[0]) =~= spec_capitalised(word) + " #"@ + number);
    assert(spec_closing_lines(ms) =~= seq![spec_capitalised(word) + " #"@ + number]);
}

} // verus!
