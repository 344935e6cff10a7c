//! Character-level text: the splitting, trimming and comparing every module of this
//! crate reads git's, a host's and an operator's text with.
//!
//! Each operation is stated over `Seq<char>`, the view of a `String`, so a contract
//! elsewhere can say what a line, a field or a trimmed value *is* rather than how it
//! was cut out.

use vstd::prelude::*;

verus! {

// ---------------------------------------------------------------------------
// Character classes
// ---------------------------------------------------------------------------

/// Unicode's `White_Space` property, which is what `char::is_whitespace` answers.
pub open spec fn spec_is_whitespace(c: char) -> bool {
    ||| ('\u{9}' <= c && c <= '\u{d}')
    ||| c == ' '
    ||| c == '\u{85}'
    ||| c == '\u{a0}'
    ||| c == '\u{1680}'
    ||| ('\u{2000}' <= c && c <= '\u{200a}')
    ||| c == '\u{2028}'
    ||| c == '\u{2029}'
    ||| c == '\u{202f}'
    ||| c == '\u{205f}'
    ||| c == '\u{3000}'
}

/// Whether a character is white space.
pub fn is_whitespace(c: char) -> (b: bool)
    ensures
        b == spec_is_whitespace(c),
{
    ('\u{9}' <= c && c <= '\u{d}') || c == ' ' || c == '\u{85}' || c == '\u{a0}' || c
        == '\u{1680}' || ('\u{2000}' <= c && c <= '\u{200a}') || c == '\u{2028}' || c
        == '\u{2029}' || c == '\u{202f}' || c == '\u{205f}' || c == '\u{3000}'
}

/// The `Cc` general category, which is what `char::is_control` answers.
pub open spec fn spec_is_control(c: char) -> bool {
    c <= '\u{1f}' || ('\u{7f}' <= c && c <= '\u{9f}')
}

/// Whether a character is a control character.
pub fn is_control(c: char) -> (b: bool)
    ensures
        b == spec_is_control(c),
{
    c <= '\u{1f}' || ('\u{7f}' <= c && c <= '\u{9f}')
}

pub open spec fn spec_is_ascii_digit(c: char) -> bool {
    '0' <= c && c <= '9'
}

pub open spec fn spec_is_ascii_lower(c: char) -> bool {
    'a' <= c && c <= 'z'
}

pub open spec fn spec_is_ascii_upper(c: char) -> bool {
    'A' <= c && c <= 'Z'
}

pub open spec fn spec_is_ascii_alpha(c: char) -> bool {
    spec_is_ascii_lower(c) || spec_is_ascii_upper(c)
}

pub open spec fn spec_is_ascii_alnum(c: char) -> bool {
    spec_is_ascii_alpha(c) || spec_is_ascii_digit(c)
}

pub open spec fn spec_is_ascii_hex(c: char) -> bool {
    spec_is_ascii_digit(c) || ('a' <= c && c <= 'f') || ('A' <= c && c <= 'F')
}

pub fn is_ascii_digit(c: char) -> (b: bool)
    ensures
        b == spec_is_ascii_digit(c),
{
    '0' <= c && c <= '9'
}

pub fn is_ascii_lower(c: char) -> (b: bool)
    ensures
        b == spec_is_ascii_lower(c),
{
    'a' <= c && c <= 'z'
}

pub fn is_ascii_alpha(c: char) -> (b: bool)
    ensures
        b == spec_is_ascii_alpha(c),
{
    ('a' <= c && c <= 'z') || ('A' <= c && c <= 'Z')
}

pub fn is_ascii_alnum(c: char) -> (b: bool)
    ensures
        b == spec_is_ascii_alnum(c),
{
    ('a' <= c && c <= 'z') || ('A' <= c && c <= 'Z') || ('0' <= c && c <= '9')
}

pub fn is_ascii_hex(c: char) -> (b: bool)
    ensures
        b == spec_is_ascii_hex(c),
{
    ('0' <= c && c <= '9') || ('a' <= c && c <= 'f') || ('A' <= c && c <= 'F')
}

/// ASCII lowercasing of one character; everything else is left as it is.
pub open spec fn spec_ascii_lower(c: char) -> char {
    if spec_is_ascii_upper(c) {
        ((c as u32) + 32) as char
    } else {
        c
    }
}

/// ASCII uppercasing of one character; everything else is left as it is.
pub open spec fn spec_ascii_upper(c: char) -> char {
    if spec_is_ascii_lower(c) {
        ((c as u32) - 32) as char
    } else {
        c
    }
}

pub fn ascii_lower(c: char) -> (out: char)
    ensures
        out == spec_ascii_lower(c),
{
    if 'A' <= c && c <= 'Z' {
        let code: u32 = (c as u32) + 32;
        assert('a' as u32 <= code <= 'z' as u32);
        let lowered = char_of_ascii(code);
        lowered
    } else {
        c
    }
}

pub fn ascii_upper(c: char) -> (out: char)
    ensures
        out == spec_ascii_upper(c),
{
    if 'a' <= c && c <= 'z' {
        let code: u32 = (c as u32) - 32;
        char_of_ascii(code)
    } else {
        c
    }
}

/// The character an ASCII code names.
fn char_of_ascii(code: u32) -> (c: char)
    requires
        code < 128,
    ensures
        c == code as char,
        c as u32 == code,
{
    let byte: u8 = code as u8;
    byte as char
}

/// The ASCII lowercasing of a whole sequence.
pub open spec fn spec_ascii_lower_seq(s: Seq<char>) -> Seq<char> {
    s.map_values(|c: char| spec_ascii_lower(c))
}

/// The ASCII uppercasing of a whole sequence.
pub open spec fn spec_ascii_upper_seq(s: Seq<char>) -> Seq<char> {
    s.map_values(|c: char| spec_ascii_upper(c))
}

// ---------------------------------------------------------------------------
// Building text
// ---------------------------------------------------------------------------

/// The characters of a string slice, in order.
pub fn chars_of(s: &str) -> (out: Vec<char>)
    ensures
        out@ == s@,
{
    let mut out: Vec<char> = Vec::new();
    for c in it: s.chars()
        invariant
            out@ == it.seq().take(it.index() as int),
            it.seq() == s@,
    {
        out.push(c);
    }
    out
}

/// Append one character to a string: `String::push`.
#[verifier::external_body]
pub(crate) fn push_char(s: &mut String, c: char)
    ensures
        final(s)@ == old(s)@.push(c),
{
    s.push(c);
}

/// An owned copy of a string slice.
pub fn owned(s: &str) -> (out: String)
    ensures
        out@ == s@,
{
    s.to_owned()
}

/// A string holding exactly `chars[lo..hi]`.
pub fn string_of(chars: &[char], lo: usize, hi: usize) -> (out: String)
    requires
        lo <= hi <= chars@.len(),
    ensures
        out@ == chars@.subrange(lo as int, hi as int),
{
    let mut out = String::new();
    let mut i = lo;
    while i < hi
        invariant
            lo <= i <= hi <= chars@.len(),
            out@ == chars@.subrange(lo as int, i as int),
        decreases hi - i,
    {
        push_char(&mut out, chars[i]);
        i = i + 1;
    }
    out
}

/// A string holding exactly `chars`.
pub fn string_from(chars: &[char]) -> (out: String)
    ensures
        out@ == chars@,
{
    let out = string_of(chars, 0, chars.len());
    assert(chars@.subrange(0, chars@.len() as int) =~= chars@);
    out
}

/// Two strings, one after the other.
pub fn concat(a: &str, b: &str) -> (out: String)
    ensures
        out@ == a@ + b@,
{
    let mut out = owned(a);
    out.append(b);
    out
}

/// Whether two strings are the same text.
pub fn str_eq(a: &str, b: &str) -> (eq: bool)
    ensures
        eq == (a@ == b@),
{
    let x = chars_of(a);
    let y = chars_of(b);
    seq_eq(&x, &y)
}

/// Whether two character slices are the same sequence.
pub fn seq_eq(x: &[char], y: &[char]) -> (eq: bool)
    ensures
        eq == (x@ == y@),
{
    if x.len() != y.len() {
        return false;
    }
    let mut i: usize = 0;
    while i < x.len()
        invariant
            x@.len() == y@.len(),
            i <= x@.len(),
            forall|j: int| 0 <= j < i ==> x@[j] == y@[j],
        decreases x.len() - i,
    {
        if x[i] != y[i] {
            return false;
        }
        i = i + 1;
    }
    assert(x@ =~= y@);
    true
}

/// The ASCII lowercasing of a string.
pub fn to_ascii_lower(s: &str) -> (out: String)
    ensures
        out@ == spec_ascii_lower_seq(s@),
{
    let chars = chars_of(s);
    let mut out = String::new();
    let mut i: usize = 0;
    while i < chars.len()
        invariant
            chars@ == s@,
            i <= chars@.len(),
            out@ == spec_ascii_lower_seq(chars@.take(i as int)),
        decreases chars.len() - i,
    {
        let c = ascii_lower(chars[i]);
        push_char(&mut out, c);
        assert(spec_ascii_lower_seq(chars@.take(i + 1)) =~= spec_ascii_lower_seq(
            chars@.take(i as int),
        ).push(c));
        i = i + 1;
    }
    assert(chars@.take(chars@.len() as int) =~= chars@);
    out
}

// ---------------------------------------------------------------------------
// Prefixes, suffixes, searching
// ---------------------------------------------------------------------------

pub open spec fn spec_starts_with(s: Seq<char>, p: Seq<char>) -> bool {
    p.len() <= s.len() && s.take(p.len() as int) == p
}

pub open spec fn spec_ends_with(s: Seq<char>, p: Seq<char>) -> bool {
    p.len() <= s.len() && s.skip(s.len() - p.len()) == p
}

/// Whether `needle` occurs somewhere in `s`.
pub open spec fn spec_contains(s: Seq<char>, needle: Seq<char>) -> bool {
    exists|i: int| 0 <= i <= s.len() - needle.len() && #[trigger] s.subrange(i, i + needle.len()) == needle
}

/// Whether `s` begins with `p`.
pub fn starts_with(s: &[char], p: &[char]) -> (b: bool)
    ensures
        b == spec_starts_with(s@, p@),
{
    if p.len() > s.len() {
        return false;
    }
    let mut i: usize = 0;
    while i < p.len()
        invariant
            p@.len() <= s@.len(),
            i <= p@.len(),
            forall|j: int| 0 <= j < i ==> s@[j] == p@[j],
        decreases p.len() - i,
    {
        if s[i] != p[i] {
            assert(s@.take(p@.len() as int)[i as int] != p@[i as int]);
            return false;
        }
        i = i + 1;
    }
    assert(s@.take(p@.len() as int) =~= p@);
    true
}

/// Whether `s` ends with `p`.
pub fn ends_with(s: &[char], p: &[char]) -> (b: bool)
    ensures
        b == spec_ends_with(s@, p@),
{
    if p.len() > s.len() {
        return false;
    }
    let n = s.len();
    let off = n - p.len();
    let mut i: usize = 0;
    while i < p.len()
        invariant
            n == s@.len(),
            p@.len() <= s@.len(),
            off == s@.len() - p@.len(),
            i <= p@.len(),
            forall|j: int| 0 <= j < i ==> s@[off + j] == p@[j],
        decreases p.len() - i,
    {
        assert(off + i < s@.len());
        if s[off + i] != p[i] {
            assert(s@.skip(off as int)[i as int] != p@[i as int]);
            return false;
        }
        i = i + 1;
    }
    assert(s@.skip(off as int) =~= p@);
    true
}

/// Whether `needle` occurs at position `at` of `s`.
pub fn occurs_at(s: &[char], needle: &[char], at: usize) -> (b: bool)
    requires
        at <= s@.len(),
    ensures
        b == (needle@.len() <= s@.len() - at && s@.subrange(at as int, at + needle@.len())
            == needle@),
{
    let n = s.len();
    if needle.len() > n - at {
        return false;
    }
    let mut i: usize = 0;
    while i < needle.len()
        invariant
            n == s@.len(),
            needle@.len() <= s@.len() - at,
            at <= s@.len(),
            i <= needle@.len(),
            forall|j: int| 0 <= j < i ==> s@[at + j] == needle@[j],
        decreases needle.len() - i,
    {
        assert(at + i < s@.len());
        if s[at + i] != needle[i] {
            assert(s@.subrange(at as int, at + needle@.len())[i as int] != needle@[i as int]);
            return false;
        }
        i = i + 1;
    }
    assert(s@.subrange(at as int, at + needle@.len()) =~= needle@);
    true
}

/// Whether `needle` occurs anywhere in `s`.
pub fn contains(s: &[char], needle: &[char]) -> (b: bool)
    ensures
        b == spec_contains(s@, needle@),
{
    if needle.len() > s.len() {
        return false;
    }
    let last = s.len() - needle.len();
    let mut i: usize = 0;
    loop
        invariant
            needle@.len() <= s@.len(),
            last == s@.len() - needle@.len(),
            i <= last,
            forall|j: int| 0 <= j < i ==> #[trigger] s@.subrange(j, j + needle@.len()) != needle@,
        decreases last - i,
    {
        if occurs_at(s, needle, i) {
            return true;
        }
        if i == last {
            return false;
        }
        i = i + 1;
    }
}

/// Whether a string carries a character.
pub open spec fn spec_has_char(s: Seq<char>, c: char) -> bool {
    exists|i: int| 0 <= i < s.len() && s[i] == c
}

/// The position of the first `c` in `s`, or `-1` where there is none.
pub open spec fn spec_index_of(s: Seq<char>, c: char) -> int
    decreases s.len(),
{
    if s.len() == 0 {
        -1
    } else if s[0] == c {
        0
    } else {
        let rest = spec_index_of(s.drop_first(), c);
        if rest < 0 {
            -1
        } else {
            rest + 1
        }
    }
}

/// What [`spec_index_of`] means.
pub proof fn lemma_index_of(s: Seq<char>, c: char)
    ensures
        -1 <= spec_index_of(s, c) < s.len(),
        spec_index_of(s, c) >= 0 ==> s[spec_index_of(s, c)] == c,
        forall|j: int| 0 <= j < s.len() && (spec_index_of(s, c) < 0 || j < spec_index_of(s, c))
            ==> s[j] != c,
    decreases s.len(),
{
    if s.len() > 0 && s[0] != c {
        lemma_index_of(s.drop_first(), c);
        assert forall|j: int|
            0 <= j < s.len() && (spec_index_of(s, c) < 0 || j < spec_index_of(s, c)) implies s[j]
            != c by {
            if j > 0 {
                assert(s[j] == s.drop_first()[j - 1]);
            }
        }
    }
}

/// The position of the first `c`: the converse of [`lemma_index_of`].
pub proof fn lemma_index_of_is(s: Seq<char>, c: char, i: int)
    requires
        -1 <= i < s.len(),
        i >= 0 ==> s[i] == c,
        forall|j: int| 0 <= j < s.len() && (i < 0 || j < i) ==> s[j] != c,
    ensures
        spec_index_of(s, c) == i,
{
    lemma_index_of(s, c);
    let k = spec_index_of(s, c);
    if k >= 0 && (i < 0 || k < i) {
        assert(s[k] != c);
    }
    if i >= 0 && (k < 0 || i < k) {
        assert(s[i] != c);
    }
}

/// The position of the first `c` in `s[from..]`, counted from the start of `s`.
pub fn find_char(s: &[char], c: char, from: usize) -> (r: Option<usize>)
    requires
        from <= s@.len(),
    ensures
        match r {
            Some(i) => from <= i < s@.len() && s@[i as int] == c && spec_index_of(
                s@.skip(from as int),
                c,
            ) == i - from,
            None => spec_index_of(s@.skip(from as int), c) == -1,
        },
        forall|j: int|
            from <= j < s@.len() && (r.is_none() || j < r.unwrap()) ==> s@[j] != c,
{
    let mut i = from;
    while i < s.len()
        invariant
            from <= i <= s@.len(),
            forall|j: int| from <= j < i ==> s@[j] != c,
        decreases s.len() - i,
    {
        if s[i] == c {
            proof {
                lemma_index_of_is(s@.skip(from as int), c, i - from);
            }
            return Some(i);
        }
        i = i + 1;
    }
    proof {
        lemma_index_of_is(s@.skip(from as int), c, -1);
    }
    None
}

// ---------------------------------------------------------------------------
// Splitting
// ---------------------------------------------------------------------------

/// `str::split` on one character: every piece, empty ones included.
pub open spec fn spec_split(s: Seq<char>, sep: char) -> Seq<Seq<char>>
    decreases s.len(),
{
    let i = spec_index_of(s, sep);
    if i < 0 {
        seq![s]
    } else {
        proof {
            lemma_index_of(s, sep);
        }
        seq![s.take(i)] + spec_split(s.skip(i + 1), sep)
    }
}

/// `str::split_once` on one character.
pub open spec fn spec_split_once(s: Seq<char>, sep: char) -> Option<(Seq<char>, Seq<char>)> {
    let i = spec_index_of(s, sep);
    if i < 0 {
        None
    } else {
        Some((s.take(i), s.skip(i + 1)))
    }
}

/// A line with the carriage return of a `\r\n` ending taken off.
pub open spec fn spec_strip_cr(s: Seq<char>) -> Seq<char> {
    if s.len() > 0 && s.last() == '\r' {
        s.drop_last()
    } else {
        s
    }
}

/// `str::lines`: split at `\n` or `\r\n`, with the final line ending optional.
pub open spec fn spec_lines(s: Seq<char>) -> Seq<Seq<char>>
    decreases s.len(),
{
    if s.len() == 0 {
        seq![]
    } else {
        let i = spec_index_of(s, '\n');
        if i < 0 {
            seq![s]
        } else {
            proof {
                lemma_index_of(s, '\n');
            }
            seq![spec_strip_cr(s.take(i))] + spec_lines(s.skip(i + 1))
        }
    }
}

/// The views of a vector of strings.
pub open spec fn views(v: Seq<String>) -> Seq<Seq<char>> {
    v.map_values(|s: String| s@)
}

/// `str::split_once` on one character.
pub fn split_once(s: &str, sep: char) -> (r: Option<(String, String)>)
    ensures
        match r {
            Some((a, b)) => spec_split_once(s@, sep) == Some((a@, b@)),
            None => spec_split_once(s@, sep) is None,
        },
{
    let chars = chars_of(s);
    proof {
        assert(chars@.skip(0) =~= chars@);
    }
    let n = chars.len();
    match find_char(&chars, sep, 0) {
        Some(i) => {
            assert(i < n);
            let a = string_of(&chars, 0, i);
            let b = string_of(&chars, i + 1, chars.len());
            assert(a@ =~= chars@.take(i as int));
            assert(b@ =~= chars@.skip(i + 1));
            Some((a, b))
        },
        None => None,
    }
}

/// `str::split` on one character.
pub fn split(s: &str, sep: char) -> (out: Vec<String>)
    ensures
        views(out@) == spec_split(s@, sep),
{
    let chars = chars_of(s);
    let mut out: Vec<String> = Vec::new();
    let mut start: usize = 0;
    proof {
        assert(chars@.skip(0) =~= chars@);
    }
    let n = chars.len();
    loop
        invariant
            chars@ == s@,
            n == chars@.len(),
            start <= chars@.len(),
            views(out@) + spec_split(chars@.skip(start as int), sep) == spec_split(chars@, sep),
        decreases chars@.len() - start,
    {
        let ghost rest = chars@.skip(start as int);
        match find_char(&chars, sep, start) {
            Some(i) => {
                assert(i < chars@.len());
                let piece = string_of(&chars, start, i);
                proof {
                    assert(rest.take(i - start) =~= piece@);
                    assert(rest.skip(i - start + 1) =~= chars@.skip(i + 1));
                    assert(views(out@.push(piece)) =~= views(out@).push(piece@));
                }
                out.push(piece);
                start = i + 1;
            },
            None => {
                let piece = string_of(&chars, start, chars.len());
                proof {
                    assert(rest =~= piece@);
                    assert(views(out@.push(piece)) =~= views(out@) + seq![piece@]);
                }
                out.push(piece);
                return out;
            },
        }
    }
}

/// `str::lines`.
pub fn lines(s: &str) -> (out: Vec<String>)
    ensures
        views(out@) == spec_lines(s@),
{
    let chars = chars_of(s);
    let mut out: Vec<String> = Vec::new();
    let mut start: usize = 0;
    proof {
        assert(chars@.skip(0) =~= chars@);
        assert(views(out@) =~= seq![]);
    }
    loop
        invariant
            chars@ == s@,
            start <= chars@.len(),
            views(out@) + spec_lines(chars@.skip(start as int)) == spec_lines(chars@),
        decreases chars@.len() - start,
    {
        let ghost rest = chars@.skip(start as int);
        if start == chars.len() {
            assert(rest.len() == 0);
            assert(views(out@) + seq![] =~= views(out@));
            return out;
        }
        match find_char(&chars, '\n', start) {
            Some(i) => {
                let mut end = i;
                if end > start && chars[end - 1] == '\r' {
                    end = end - 1;
                }
                let piece = string_of(&chars, start, end);
                proof {
                    assert(spec_strip_cr(rest.take(i - start)) =~= piece@);
                    assert(rest.skip(i - start + 1) =~= chars@.skip(i + 1));
                    assert(views(out@.push(piece)) =~= views(out@).push(piece@));
                }
                out.push(piece);
                start = i + 1;
            },
            None => {
                let piece = string_of(&chars, start, chars.len());
                proof {
                    assert(rest =~= piece@);
                    assert(views(out@.push(piece)) =~= views(out@) + seq![piece@]);
                }
                out.push(piece);
                return out;
            },
        }
    }
}

// ---------------------------------------------------------------------------
// Trimming
// ---------------------------------------------------------------------------

/// How many white-space characters `s` opens with.
pub open spec fn spec_leading_ws(s: Seq<char>) -> nat
    decreases s.len(),
{
    if s.len() > 0 && spec_is_whitespace(s[0]) {
        1 + spec_leading_ws(s.drop_first())
    } else {
        0
    }
}

/// How many white-space characters `s` closes with.
pub open spec fn spec_trailing_ws(s: Seq<char>) -> nat
    decreases s.len(),
{
    if s.len() > 0 && spec_is_whitespace(s.last()) {
        1 + spec_trailing_ws(s.drop_last())
    } else {
        0
    }
}

/// `str::trim_start`.
pub open spec fn spec_trim_start(s: Seq<char>) -> Seq<char> {
    s.skip(spec_leading_ws(s) as int)
}

/// `str::trim_end`.
pub open spec fn spec_trim_end(s: Seq<char>) -> Seq<char> {
    s.take(s.len() - spec_trailing_ws(s))
}

/// `str::trim`.
pub open spec fn spec_trim(s: Seq<char>) -> Seq<char> {
    spec_trim_end(spec_trim_start(s))
}

pub proof fn lemma_leading_ws(s: Seq<char>)
    ensures
        spec_leading_ws(s) <= s.len(),
        forall|j: int| 0 <= j < spec_leading_ws(s) ==> spec_is_whitespace(s[j]),
        spec_leading_ws(s) < s.len() ==> !spec_is_whitespace(s[spec_leading_ws(s) as int]),
    decreases s.len(),
{
    if s.len() > 0 && spec_is_whitespace(s[0]) {
        lemma_leading_ws(s.drop_first());
        assert forall|j: int| 0 <= j < spec_leading_ws(s) implies spec_is_whitespace(s[j]) by {
            if j > 0 {
                assert(s[j] == s.drop_first()[j - 1]);
            }
        }
    }
}

pub proof fn lemma_leading_ws_is(s: Seq<char>, n: int)
    requires
        0 <= n <= s.len(),
        forall|j: int| 0 <= j < n ==> spec_is_whitespace(s[j]),
        n < s.len() ==> !spec_is_whitespace(s[n]),
    ensures
        spec_leading_ws(s) == n,
    decreases n,
{
    if n > 0 {
        assert forall|j: int| 0 <= j < n - 1 implies spec_is_whitespace(s.drop_first()[j]) by {
            assert(s.drop_first()[j] == s[j + 1]);
        }
        lemma_leading_ws_is(s.drop_first(), n - 1);
    }
}

pub proof fn lemma_trailing_ws(s: Seq<char>)
    ensures
        spec_trailing_ws(s) <= s.len(),
        forall|j: int| s.len() - spec_trailing_ws(s) <= j < s.len() ==> spec_is_whitespace(s[j]),
        spec_trailing_ws(s) < s.len() ==> !spec_is_whitespace(
            s[s.len() - spec_trailing_ws(s) - 1],
        ),
    decreases s.len(),
{
    if s.len() > 0 && spec_is_whitespace(s.last()) {
        lemma_trailing_ws(s.drop_last());
        assert forall|j: int|
            s.len() - spec_trailing_ws(s) <= j < s.len() implies spec_is_whitespace(s[j]) by {
            if j < s.len() - 1 {
                assert(s[j] == s.drop_last()[j]);
            }
        }
        if spec_trailing_ws(s) < s.len() {
            assert(s[s.len() - spec_trailing_ws(s) - 1] == s.drop_last()[s.len()
                - spec_trailing_ws(s) - 1]);
        }
    }
}

pub proof fn lemma_trailing_ws_is(s: Seq<char>, n: int)
    requires
        0 <= n <= s.len(),
        forall|j: int| s.len() - n <= j < s.len() ==> spec_is_whitespace(s[j]),
        n < s.len() ==> !spec_is_whitespace(s[s.len() - n - 1]),
    ensures
        spec_trailing_ws(s) == n,
    decreases n,
{
    if n > 0 {
        let d = s.drop_last();
        assert forall|j: int| d.len() - (n - 1) <= j < d.len() implies spec_is_whitespace(d[j]) by {
            assert(d[j] == s[j]);
        }
        if n - 1 < d.len() {
            assert(d[d.len() - (n - 1) - 1] == s[s.len() - n - 1]);
        }
        lemma_trailing_ws_is(d, n - 1);
    }
}

/// The range of `chars` that is left once white space is trimmed off both ends.
pub fn trim_bounds(chars: &[char]) -> (r: (usize, usize))
    ensures
        r.0 <= r.1 <= chars@.len(),
        chars@.subrange(r.0 as int, r.1 as int) == spec_trim(chars@),
        chars@.skip(r.0 as int) == spec_trim_start(chars@),
        chars@.take(chars@.len() - spec_trailing_ws(chars@)) == spec_trim_end(chars@),
{
    let mut lo: usize = 0;
    while lo < chars.len() && is_whitespace(chars[lo])
        invariant
            lo <= chars@.len(),
            forall|j: int| 0 <= j < lo ==> spec_is_whitespace(chars@[j]),
        decreases chars.len() - lo,
    {
        lo = lo + 1;
    }
    proof {
        lemma_leading_ws_is(chars@, lo as int);
    }
    let mut hi: usize = chars.len();
    while hi > lo && is_whitespace(chars[hi - 1])
        invariant
            lo <= hi <= chars@.len(),
            forall|j: int| hi <= j < chars@.len() ==> spec_is_whitespace(chars@[j]),
        decreases hi,
    {
        hi = hi - 1;
    }
    proof {
        let t = chars@.skip(lo as int);
        assert forall|j: int| t.len() - (chars@.len() - hi) <= j < t.len() implies spec_is_whitespace(
            t[j],
        ) by {
            assert(t[j] == chars@[lo + j]);
        }
        if chars@.len() - hi < t.len() {
            assert(t[t.len() - (chars@.len() - hi) - 1] == chars@[hi - 1]);
        }
        lemma_trailing_ws_is(t, chars@.len() - hi);
        assert(t.take(t.len() - spec_trailing_ws(t)) =~= chars@.subrange(lo as int, hi as int));
        lemma_trailing_ws(chars@);
    }
    (lo, hi)
}

/// `str::trim`.
pub fn trim(s: &str) -> (out: String)
    ensures
        out@ == spec_trim(s@),
{
    let chars = chars_of(s);
    let (lo, hi) = trim_bounds(&chars);
    string_of(&chars, lo, hi)
}

/// `str::trim_start`.
pub fn trim_start(s: &str) -> (out: String)
    ensures
        out@ == spec_trim_start(s@),
{
    let chars = chars_of(s);
    let (lo, _hi) = trim_bounds(&chars);
    let out = string_of(&chars, lo, chars.len());
    assert(out@ =~= chars@.skip(lo as int));
    out
}

/// `str::trim_end`.
pub fn trim_end(s: &str) -> (out: String)
    ensures
        out@ == spec_trim_end(s@),
{
    let chars = chars_of(s);
    let mut hi: usize = chars.len();
    while hi > 0 && is_whitespace(chars[hi - 1])
        invariant
            hi <= chars@.len(),
            forall|j: int| hi <= j < chars@.len() ==> spec_is_whitespace(chars@[j]),
        decreases hi,
    {
        hi = hi - 1;
    }
    proof {
        lemma_trailing_ws_is(chars@, chars@.len() - hi);
    }
    let out = string_of(&chars, 0, hi);
    assert(out@ =~= chars@.take(hi as int));
    out
}

/// Whether every character of a string is white space, which is what a blank
/// `trim()` answers.
pub open spec fn spec_is_blank(s: Seq<char>) -> bool {
    spec_trim(s).len() == 0
}

/// Whether a string is empty once trimmed.
pub fn is_blank(s: &str) -> (b: bool)
    ensures
        b == spec_is_blank(s@),
{
    let chars = chars_of(s);
    let (lo, hi) = trim_bounds(&chars);
    lo == hi
}

} // verus!

verus! {

// ---------------------------------------------------------------------------
// Runs of characters a predicate picks out
// ---------------------------------------------------------------------------

/// How many characters `s` opens with that `pred` holds of.
pub open spec fn spec_leading(s: Seq<char>, pred: spec_fn(char) -> bool) -> nat
    decreases s.len(),
{
    if s.len() > 0 && pred(s[0]) {
        1 + spec_leading(s.drop_first(), pred)
    } else {
        0
    }
}

/// How many characters `s` closes with that `pred` holds of.
pub open spec fn spec_trailing(s: Seq<char>, pred: spec_fn(char) -> bool) -> nat
    decreases s.len(),
{
    if s.len() > 0 && pred(s.last()) {
        1 + spec_trailing(s.drop_last(), pred)
    } else {
        0
    }
}

pub proof fn lemma_leading(s: Seq<char>, pred: spec_fn(char) -> bool)
    ensures
        spec_leading(s, pred) <= s.len(),
        forall|j: int| 0 <= j < spec_leading(s, pred) ==> pred(s[j]),
        spec_leading(s, pred) < s.len() ==> !pred(s[spec_leading(s, pred) as int]),
    decreases s.len(),
{
    if s.len() > 0 && pred(s[0]) {
        lemma_leading(s.drop_first(), pred);
        assert forall|j: int| 0 <= j < spec_leading(s, pred) implies pred(s[j]) by {
            if j > 0 {
                assert(s[j] == s.drop_first()[j - 1]);
            }
        }
    }
}

pub proof fn lemma_leading_is(s: Seq<char>, pred: spec_fn(char) -> bool, n: int)
    requires
        0 <= n <= s.len(),
        forall|j: int| 0 <= j < n ==> pred(s[j]),
        n < s.len() ==> !pred(s[n]),
    ensures
        spec_leading(s, pred) == n,
    decreases n,
{
    if n > 0 {
        assert forall|j: int| 0 <= j < n - 1 implies pred(s.drop_first()[j]) by {
            assert(s.drop_first()[j] == s[j + 1]);
        }
        lemma_leading_is(s.drop_first(), pred, n - 1);
    }
}

pub proof fn lemma_trailing_is(s: Seq<char>, pred: spec_fn(char) -> bool, n: int)
    requires
        0 <= n <= s.len(),
        forall|j: int| s.len() - n <= j < s.len() ==> pred(s[j]),
        n < s.len() ==> !pred(s[s.len() - n - 1]),
    ensures
        spec_trailing(s, pred) == n,
    decreases n,
{
    if n > 0 {
        let d = s.drop_last();
        assert forall|j: int| d.len() - (n - 1) <= j < d.len() implies pred(d[j]) by {
            assert(d[j] == s[j]);
        }
        if n - 1 < d.len() {
            assert(d[d.len() - (n - 1) - 1] == s[s.len() - n - 1]);
        }
        lemma_trailing_is(d, pred, n - 1);
    }
}

pub proof fn lemma_trailing(s: Seq<char>, pred: spec_fn(char) -> bool)
    ensures
        spec_trailing(s, pred) <= s.len(),
        forall|j: int| s.len() - spec_trailing(s, pred) <= j < s.len() ==> pred(s[j]),
    decreases s.len(),
{
    if s.len() > 0 && pred(s.last()) {
        lemma_trailing(s.drop_last(), pred);
        assert forall|j: int| s.len() - spec_trailing(s, pred) <= j < s.len() implies pred(s[j]) by {
            if j < s.len() - 1 {
                assert(s[j] == s.drop_last()[j]);
            }
        }
    }
}

/// Whether `pred` holds of every character.
pub open spec fn spec_all(s: Seq<char>, pred: spec_fn(char) -> bool) -> bool {
    forall|i: int| 0 <= i < s.len() ==> pred(s[i])
}

// ---------------------------------------------------------------------------
// Unicode answers only the standard library has tables for
// ---------------------------------------------------------------------------

/// What `char::is_alphanumeric` answers for a character.
pub uninterp spec fn spec_char_is_alphanumeric(c: char) -> bool;

/// `char::is_alphanumeric`: Unicode's `Alphabetic` or `Numeric`.
#[verifier::external_body]
pub(crate) fn is_alphanumeric(c: char) -> (b: bool)
    ensures
        b == spec_char_is_alphanumeric(c),
{
    c.is_alphanumeric()
}

/// What `str::to_lowercase` answers for a string.
pub uninterp spec fn spec_lowercase(s: Seq<char>) -> Seq<char>;

/// `str::to_lowercase`: Unicode's full lowercase mapping, which is context-sensitive
/// for a final capital sigma, so the result is named rather than stated per character.
#[verifier::external_body]
pub(crate) fn lowercase(s: &str) -> (out: String)
    ensures
        out@ == spec_lowercase(s@),
{
    s.to_lowercase()
}

/// What `format!("{:?}", s)` renders a string as.
pub uninterp spec fn spec_debug_quoted(s: Seq<char>) -> Seq<char>;

/// A string as Rust's `Debug` quotes it: in double quotes, with escapes.
#[verifier::external_body]
pub(crate) fn debug_quoted(s: &str) -> (out: String)
    ensures
        out@ == spec_debug_quoted(s@),
{
    format!("{:?}", s)
}

} // verus!

verus! {

// ---------------------------------------------------------------------------
// Numbers as text
// ---------------------------------------------------------------------------

/// The character one decimal digit is written as.
pub open spec fn spec_digit(d: nat) -> char
    recommends
        d < 16,
{
    if d < 10 {
        ((d + 48) as u32) as char
    } else {
        ((d - 10 + 97) as u32) as char
    }
}

/// A number written in base `radix` (10 or 16), most significant digit first,
/// without leading zeros: `0` is written as `0`.
pub open spec fn spec_in_radix(n: nat, radix: nat) -> Seq<char>
    recommends
        radix == 10 || radix == 16,
    decreases n,
{
    if radix < 2 || n < radix {
        seq![spec_digit(n)]
    } else {
        proof {
            assert(n / radix < n) by (nonlinear_arith)
                requires
                    radix >= 2,
                    n >= radix,
            ;
        }
        spec_in_radix(n / radix, radix).push(spec_digit(n % radix))
    }
}

/// A number in decimal, as `{}` formats it.
pub open spec fn spec_decimal(n: nat) -> Seq<char> {
    spec_in_radix(n, 10)
}

/// A number in lowercase hexadecimal, zero-padded to at least `width` digits, as
/// `{:0width$x}` formats it.
pub open spec fn spec_hex_padded(n: nat, width: nat) -> Seq<char> {
    let digits = spec_in_radix(n, 16);
    if digits.len() >= width {
        digits
    } else {
        Seq::new((width - digits.len()) as nat, |_i: int| '0') + digits
    }
}

fn digit_char(d: u64) -> (c: char)
    requires
        d < 16,
    ensures
        c == spec_digit(d as nat),
{
    if d < 10 {
        let b: u8 = (d + 48) as u8;
        b as char
    } else {
        let b: u8 = (d - 10 + 97) as u8;
        b as char
    }
}

/// A number written in base `radix`.
pub fn in_radix(n: u64, radix: u64) -> (out: String)
    requires
        radix == 10 || radix == 16,
    ensures
        out@ == spec_in_radix(n as nat, radix as nat),
    decreases n,
{
    if n < radix {
        let mut out = String::new();
        push_char(&mut out, digit_char(n));
        assert(out@ =~= seq![spec_digit(n as nat)]);
        out
    } else {
        let mut out = in_radix(n / radix, radix);
        push_char(&mut out, digit_char(n % radix));
        out
    }
}

/// A number in decimal.
pub fn decimal(n: u64) -> (out: String)
    ensures
        out@ == spec_decimal(n as nat),
{
    in_radix(n, 10)
}

/// A number in lowercase hexadecimal, zero-padded to `width` digits.
pub fn hex_padded(n: u64, width: usize) -> (out: String)
    ensures
        out@ == spec_hex_padded(n as nat, width as nat),
{
    let digits = in_radix(n, 16);
    let chars = chars_of(&digits);
    if chars.len() >= width {
        return digits;
    }
    let mut out = String::new();
    let pad = width - chars.len();
    let mut i: usize = 0;
    while i < pad
        invariant
            i <= pad,
            out@ == Seq::new(i as nat, |_i: int| '0'),
        decreases pad - i,
    {
        push_char(&mut out, '0');
        assert(out@ =~= Seq::new((i + 1) as nat, |_i: int| '0'));
        i = i + 1;
    }
    out.append(&digits);
    out
}

/// The digits of a decimal number, read back: the value they spell, or `None`
/// where they are not a non-empty run of ASCII digits.
pub open spec fn spec_parse_decimal(s: Seq<char>) -> Option<nat>
    decreases s.len(),
{
    if s.len() == 0 {
        None
    } else if !spec_is_ascii_digit(s.last()) {
        None
    } else if s.len() == 1 {
        Some((s.last() as nat - 48) as nat)
    } else {
        match spec_parse_decimal(s.drop_last()) {
            Some(v) => Some(v * 10 + (s.last() as nat - 48) as nat),
            None => None,
        }
    }
}

/// `str::parse::<u64>` over plain decimal digits: the value, or `None` where the
/// text is not a non-empty run of ASCII digits or the value does not fit.
pub fn parse_u64(s: &str) -> (r: Option<u64>)
    ensures
        match r {
            Some(v) => spec_parse_decimal(s@) == Some(v as nat),
            None => spec_parse_decimal(s@) is None || spec_parse_decimal(s@).unwrap()
                > u64::MAX,
        },
{
    let chars = chars_of(s);
    if chars.len() == 0 {
        return None;
    }
    let mut value: u64 = 0;
    let mut i: usize = 0;
    while i < chars.len()
        invariant
            chars@ == s@,
            i <= chars@.len(),
            i == 0 ==> value == 0,
            i > 0 ==> spec_parse_decimal(chars@.take(i as int)) == Some(value as nat),
        decreases chars.len() - i,
    {
        let c = chars[i];
        assert(chars@.take(i + 1).drop_last() =~= chars@.take(i as int));
        if !is_ascii_digit(c) {
            proof {
                lemma_parse_decimal_prefix_none(chars@, i as int + 1);
            }
            return None;
        }
        let d: u64 = (c as u32 - 48) as u64;
        if value > (u64::MAX - d) / 10 {
            proof {
                assert(value * 10 + d > u64::MAX) by (nonlinear_arith)
                    requires
                        value > (u64::MAX - d) / 10,
                        d <= 9,
                ;
                lemma_parse_decimal_prefix_big(chars@, i as int + 1, (value * 10 + d) as nat);
            }
            return None;
        }
        value = value * 10 + d;
        i = i + 1;
    }
    assert(chars@.take(chars@.len() as int) =~= chars@);
    Some(value)
}

proof fn lemma_parse_decimal_prefix_none(s: Seq<char>, k: int)
    requires
        1 <= k <= s.len(),
        spec_parse_decimal(s.take(k)) is None,
    ensures
        spec_parse_decimal(s) is None,
    decreases s.len() - k,
{
    if k < s.len() {
        assert(s.take(k + 1).drop_last() =~= s.take(k));
        lemma_parse_decimal_prefix_none(s, k + 1);
    } else {
        assert(s.take(k) =~= s);
    }
}

proof fn lemma_parse_decimal_prefix_big(s: Seq<char>, k: int, v: nat)
    requires
        1 <= k <= s.len(),
        spec_parse_decimal(s.take(k)) == Some(v),
        v > u64::MAX,
    ensures
        spec_parse_decimal(s) is None || spec_parse_decimal(s).unwrap() > u64::MAX,
    decreases s.len() - k,
{
    if k < s.len() {
        let t = s.take(k + 1);
        assert(t.drop_last() =~= s.take(k));
        match spec_parse_decimal(t) {
            Some(w) => {
                assert(w >= v * 10);
                lemma_parse_decimal_prefix_big(s, k + 1, w);
            },
            None => {
                lemma_parse_decimal_prefix_none(s, k + 1);
            },
        }
    } else {
        assert(s.take(k) =~= s);
    }
}

/// A list of strings joined by a separator.
pub open spec fn spec_join(parts: Seq<Seq<char>>, sep: Seq<char>) -> Seq<char>
    decreases parts.len(),
{
    if parts.len() == 0 {
        seq![]
    } else if parts.len() == 1 {
        parts[0]
    } else {
        spec_join(parts.drop_last(), sep) + sep + parts.last()
    }
}

/// `[..].join(sep)`.
pub fn join(parts: &[String], sep: &str) -> (out: String)
    ensures
        out@ == spec_join(views(parts@), sep@),
{
    let mut out = String::new();
    let mut i: usize = 0;
    while i < parts.len()
        invariant
            i <= parts@.len(),
            out@ == spec_join(views(parts@.take(i as int)), sep@),
        decreases parts.len() - i,
    {
        proof {
            assert(views(parts@.take(i + 1)).drop_last() =~= views(parts@.take(i as int)));
        }
        if i > 0 {
            out.append(sep);
        }
        out.append(&parts[i]);
        proof {
            if i == 0 {
                assert(out@ =~= views(parts@.take(1))[0]);
            }
        }
        i = i + 1;
    }
    assert(parts@.take(parts@.len() as int) =~= parts@);
    out
}

} // verus!

verus! {

// ---------------------------------------------------------------------------
// Signed numbers, order, and cutting at a piece of text
// ---------------------------------------------------------------------------

/// A signed number in decimal, as `{}` formats one.
pub open spec fn spec_signed_decimal(n: int) -> Seq<char> {
    if n < 0 {
        seq!['-'] + spec_decimal((-n) as nat)
    } else {
        spec_decimal(n as nat)
    }
}

/// An `i32` in decimal.
pub fn signed_decimal(n: i32) -> (out: String)
    ensures
        out@ == spec_signed_decimal(n as int),
{
    if n < 0 {
        let wide: i64 = n as i64;
        let magnitude: u64 = (0 - wide) as u64;
        let mut out = String::new();
        push_char(&mut out, '-');
        let digits = decimal(magnitude);
        out.append(&digits);
        assert(out@ =~= seq!['-'] + spec_decimal((-(n as int)) as nat));
        out
    } else {
        decimal(n as u64)
    }
}

/// The order `String`'s `Ord` puts text in: character by character, by code point,
/// a proper prefix first. Byte order over UTF-8 is this same order.
pub open spec fn spec_lex_lt(a: Seq<char>, b: Seq<char>) -> bool
    decreases a.len(),
{
    if a.len() == 0 {
        b.len() > 0
    } else if b.len() == 0 {
        false
    } else if a[0] != b[0] {
        (a[0] as int) < (b[0] as int)
    } else {
        spec_lex_lt(a.drop_first(), b.drop_first())
    }
}

/// Nothing comes before itself, and of two texts at most one comes first.
pub proof fn lemma_lex_asymmetric(a: Seq<char>, b: Seq<char>)
    ensures
        !(spec_lex_lt(a, b) && spec_lex_lt(b, a)),
        !spec_lex_lt(a, a),
    decreases a.len(),
{
    if a.len() > 0 && b.len() > 0 && a[0] == b[0] {
        lemma_lex_asymmetric(a.drop_first(), b.drop_first());
    }
    if a.len() > 0 {
        lemma_lex_asymmetric(a.drop_first(), a.drop_first());
    }
}

/// The order is transitive.
pub proof fn lemma_lex_transitive(a: Seq<char>, b: Seq<char>, c: Seq<char>)
    requires
        spec_lex_lt(a, b),
        spec_lex_lt(b, c),
    ensures
        spec_lex_lt(a, c),
    decreases a.len(),
{
    if a.len() > 0 && b.len() > 0 && c.len() > 0 && a[0] == b[0] && b[0] == c[0] {
        lemma_lex_transitive(a.drop_first(), b.drop_first(), c.drop_first());
    }
}

/// Two different texts are ordered one way or the other.
pub proof fn lemma_lex_total(a: Seq<char>, b: Seq<char>)
    requires
        a != b,
    ensures
        spec_lex_lt(a, b) || spec_lex_lt(b, a),
    decreases a.len(),
{
    if a.len() == 0 && b.len() == 0 {
        assert(a =~= b);
    } else if a.len() > 0 && b.len() > 0 {
        if a[0] == b[0] {
            if a.drop_first() == b.drop_first() {
                assert(a =~= seq![a[0]] + a.drop_first());
                assert(b =~= seq![b[0]] + b.drop_first());
            }
            lemma_lex_total(a.drop_first(), b.drop_first());
        } else {
            assert((a[0] as int) != (b[0] as int));
        }
    }
}

proof fn lemma_lex_skip(a: Seq<char>, b: Seq<char>, i: int)
    requires
        0 <= i <= a.len(),
        i <= b.len(),
        forall|j: int| 0 <= j < i ==> a[j] == b[j],
    ensures
        spec_lex_lt(a, b) == spec_lex_lt(a.skip(i), b.skip(i)),
    decreases i,
{
    if i > 0 {
        assert forall|j: int| 0 <= j < i - 1 implies a.drop_first()[j] == b.drop_first()[j] by {
            assert(a.drop_first()[j] == a[j + 1]);
        }
        lemma_lex_skip(a.drop_first(), b.drop_first(), i - 1);
        assert(a.drop_first().skip(i - 1) =~= a.skip(i));
        assert(b.drop_first().skip(i - 1) =~= b.skip(i));
    } else {
        assert(a.skip(0) =~= a);
        assert(b.skip(0) =~= b);
    }
}

/// Whether `a` comes before `b` in `String`'s order.
pub fn lex_lt(a: &str, b: &str) -> (lt: bool)
    ensures
        lt == spec_lex_lt(a@, b@),
{
    let x = chars_of(a);
    let y = chars_of(b);
    let mut i: usize = 0;
    while i < x.len() && i < y.len() && x[i] == y[i]
        invariant
            x@ == a@,
            y@ == b@,
            i <= x@.len(),
            i <= y@.len(),
            forall|j: int| 0 <= j < i ==> x@[j] == y@[j],
        decreases x.len() - i,
    {
        i = i + 1;
    }
    proof {
        lemma_lex_skip(x@, y@, i as int);
    }
    if i == x.len() {
        i < y.len()
    } else if i == y.len() {
        false
    } else {
        proof {
            assert(x@.skip(i as int)[0] == x@[i as int]);
            assert(y@.skip(i as int)[0] == y@[i as int]);
        }
        let c = x[i];
        let d = y[i];
        c < d
    }
}

/// A sequence of texts in strictly increasing order, so nothing in it twice.
pub open spec fn spec_strictly_sorted(s: Seq<Seq<char>>) -> bool {
    forall|i: int, j: int| 0 <= i < j < s.len() ==> spec_lex_lt(#[trigger] s[i], #[trigger] s[j])
}

pub proof fn lemma_contains_push(s: Seq<Seq<char>>, v: Seq<char>, x: Seq<char>)
    ensures
        s.push(v).contains(x) == (s.contains(x) || x == v),
{
    if s.contains(x) {
        let w = choose|w: int| 0 <= w < s.len() && s[w] == x;
        assert(s.push(v)[w] == x);
    }
    if x == v {
        assert(s.push(v)[s.len() as int] == x);
    }
    if s.push(v).contains(x) {
        let w = choose|w: int| 0 <= w < s.push(v).len() && s.push(v)[w] == x;
        if w < s.len() {
            assert(s[w] == x);
        }
    }
}

/// `sort` then `dedup`: the distinct texts of `items`, in `String`'s order.
pub fn sorted_distinct(items: &[String]) -> (out: Vec<String>)
    ensures
        spec_strictly_sorted(views(out@)),
        forall|x: Seq<char>| views(out@).contains(x) <==> views(items@).contains(x),
{
    let mut out: Vec<String> = Vec::new();
    let mut k: usize = 0;
    while k < items.len()
        invariant
            k <= items@.len(),
            spec_strictly_sorted(views(out@)),
            forall|x: Seq<char>| views(out@).contains(x) <==> views(items@.take(k as int)).contains(x),
        decreases items.len() - k,
    {
        let item = &items[k];
        let ghost s = views(out@);
        // The first place whose text does not come before `item`.
        let mut p: usize = 0;
        while p < out.len() && lex_lt(&out[p], item)
            invariant
                s == views(out@),
                p <= out@.len(),
                forall|j: int| 0 <= j < p ==> spec_lex_lt(#[trigger] s[j], item@),
            decreases out.len() - p,
        {
            p = p + 1;
        }
        let present = p < out.len() && str_eq(&out[p], item);
        let ghost grown = views(items@.take(k + 1));
        proof {
            assert(grown =~= views(items@.take(k as int)).push(item@));
            assert forall|x: Seq<char>| grown.contains(x) == (s.contains(x) || x == item@) by {
                lemma_contains_push(views(items@.take(k as int)), item@, x);
            }
        }
        if !present {
            let ghost before = out@;
            out.insert(p, item.clone());
            proof {
                assert(out@ == before.insert(p as int, out@[p as int]));
                let t = views(out@);
                assert(t =~= s.insert(p as int, item@));
                if p < s.len() {
                    lemma_lex_total(s[p as int], item@);
                }
                assert forall|i: int, j: int| 0 <= i < j < t.len() implies spec_lex_lt(
                    #[trigger] t[i],
                    #[trigger] t[j],
                ) by {
                    if j < p {
                        assert(t[i] == s[i] && t[j] == s[j]);
                    } else if j == p {
                        assert(t[i] == s[i]);
                    } else if i == p {
                        assert(t[j] == s[j - 1]);
                        if j - 1 > p {
                            lemma_lex_transitive(item@, s[p as int], s[j - 1]);
                        }
                    } else if i < p {
                        assert(t[i] == s[i] && t[j] == s[j - 1]);
                    } else {
                        assert(t[i] == s[i - 1] && t[j] == s[j - 1]);
                    }
                }
                assert forall|x: Seq<char>| t.contains(x) <==> grown.contains(x) by {
                    if t.contains(x) {
                        let w = choose|w: int| 0 <= w < t.len() && t[w] == x;
                        if w < p {
                            assert(s[w] == x);
                        } else if w > p {
                            assert(s[w - 1] == x);
                        }
                    }
                    if s.contains(x) {
                        let w = choose|w: int| 0 <= w < s.len() && s[w] == x;
                        if w < p {
                            assert(t[w] == x);
                        } else {
                            assert(t[w + 1] == x);
                        }
                    }
                    if x == item@ {
                        assert(t[p as int] == x);
                    }
                }
            }
        } else {
            proof {
                assert(s[p as int] == item@);
                assert(s.contains(item@));
            }
        }
        k = k + 1;
    }
    proof {
        assert(items@.take(items@.len() as int) =~= items@);
    }
    out
}

/// Where `needle` first occurs in `s`, or `-1` where it does not.
pub open spec fn spec_find(s: Seq<char>, needle: Seq<char>) -> int
    decreases s.len(),
{
    if needle.len() > s.len() {
        -1
    } else if s.take(needle.len() as int) == needle {
        0
    } else if s.len() == 0 {
        -1
    } else {
        let rest = spec_find(s.drop_first(), needle);
        if rest < 0 {
            -1
        } else {
            rest + 1
        }
    }
}

/// What [`spec_find`] means: its converse.
pub proof fn lemma_find_is(s: Seq<char>, needle: Seq<char>, i: int)
    requires
        i == -1 || 0 <= i <= s.len() - needle.len(),
        i >= 0 ==> s.subrange(i, i + needle.len()) == needle,
        forall|j: int|
            0 <= j <= s.len() - needle.len() && (i < 0 || j < i) ==> #[trigger] s.subrange(
                j,
                j + needle.len(),
            ) != needle,
    ensures
        spec_find(s, needle) == i,
    decreases s.len(),
{
    let n = needle.len() as int;
    if n > s.len() {
        assert(i < 0);
    } else {
        assert(s.subrange(0, n) =~= s.take(n));
        if s.take(n) == needle {
            if i != 0 {
                assert(s.subrange(0, 0 + n) == needle);
            }
        } else {
            if n == 0 {
                assert(s.take(0) =~= needle);
            }
            assert(s.len() > 0);
            let d = s.drop_first();
            let k = if i < 0 {
                -1
            } else {
                i - 1
            };
            if i == 0 {
                assert(s.subrange(0, 0 + n) == needle);
            }
            assert forall|j: int|
                0 <= j <= d.len() - n && (k < 0 || j < k) implies #[trigger] d.subrange(j, j + n)
                != needle by {
                assert(d.subrange(j, j + n) =~= s.subrange(j + 1, j + 1 + n));
                assert(s.subrange(j + 1, j + 1 + n) != needle);
            }
            if k >= 0 {
                assert(d.subrange(k, k + n) =~= s.subrange(i, i + n));
            }
            lemma_find_is(d, needle, k);
        }
    }
}

/// `str::split_once` on a piece of text.
pub open spec fn spec_split_once_at(s: Seq<char>, needle: Seq<char>) -> Option<
    (Seq<char>, Seq<char>),
> {
    let i = spec_find(s, needle);
    if i < 0 {
        None
    } else {
        Some((s.take(i), s.skip(i + needle.len())))
    }
}

/// `str::split_once` on a piece of text.
pub fn split_once_at(s: &str, needle: &str) -> (r: Option<(String, String)>)
    ensures
        match r {
            Some((a, b)) => spec_split_once_at(s@, needle@) == Some((a@, b@)),
            None => spec_split_once_at(s@, needle@) is None,
        },
{
    let chars = chars_of(s);
    let pattern = chars_of(needle);
    if pattern.len() > chars.len() {
        proof {
            lemma_find_is(s@, needle@, -1);
        }
        return None;
    }
    let len = chars.len();
    let last = len - pattern.len();
    let mut i: usize = 0;
    loop
        invariant
            len == chars@.len(),
            chars@ == s@,
            pattern@ == needle@,
            pattern@.len() <= chars@.len(),
            last == chars@.len() - pattern@.len(),
            i <= last,
            forall|j: int| 0 <= j < i ==> #[trigger] chars@.subrange(j, j + pattern@.len()) != pattern@,
        decreases last - i,
    {
        if occurs_at(&chars, &pattern, i) {
            proof {
                lemma_find_is(s@, needle@, i as int);
            }
            let a = string_of(&chars, 0, i);
            let b = string_of(&chars, i + pattern.len(), chars.len());
            assert(a@ =~= s@.take(i as int));
            assert(b@ =~= s@.skip(i + needle@.len()));
            return Some((a, b));
        }
        if i == last {
            proof {
                lemma_find_is(s@, needle@, -1);
            }
            return None;
        }
        i = i + 1;
    }
}

/// Where `needle` last occurs in `s`, or `-1` where it does not.
pub open spec fn spec_rfind(s: Seq<char>, needle: Seq<char>) -> int
    decreases s.len(),
{
    if needle.len() > s.len() {
        -1
    } else if s.skip(s.len() - needle.len()) == needle {
        s.len() - needle.len()
    } else if s.len() == 0 {
        -1
    } else {
        spec_rfind(s.drop_last(), needle)
    }
}

/// What [`spec_rfind`] means: its converse.
pub proof fn lemma_rfind_is(s: Seq<char>, needle: Seq<char>, i: int)
    requires
        i == -1 || 0 <= i <= s.len() - needle.len(),
        i >= 0 ==> s.subrange(i, i + needle.len()) == needle,
        forall|j: int|
            0 <= j <= s.len() - needle.len() && j > i ==> #[trigger] s.subrange(
                j,
                j + needle.len(),
            ) != needle,
    ensures
        spec_rfind(s, needle) == i,
    decreases s.len(),
{
    let n = needle.len() as int;
    if n > s.len() {
        assert(i < 0);
    } else {
        let last = s.len() - n;
        assert(s.subrange(last, last + n) =~= s.skip(last));
        if s.skip(last) == needle {
            if i != last {
                assert(s.subrange(last, last + n) == needle);
            }
        } else {
            if n == 0 {
                assert(s.skip(last) =~= needle);
            }
            assert(s.len() > 0);
            let d = s.drop_last();
            if i == last {
                assert(s.subrange(i, i + n) == needle);
            }
            assert forall|j: int|
                0 <= j <= d.len() - n && j > i implies #[trigger] d.subrange(j, j + n)
                != needle by {
                assert(d.subrange(j, j + n) =~= s.subrange(j, j + n));
            }
            if i >= 0 {
                assert(d.subrange(i, i + n) =~= s.subrange(i, i + n));
            }
            lemma_rfind_is(d, needle, i);
        }
    }
}

/// `str::rsplit_once` on a piece of text.
pub open spec fn spec_rsplit_once_at(s: Seq<char>, needle: Seq<char>) -> Option<
    (Seq<char>, Seq<char>),
> {
    let i = spec_rfind(s, needle);
    if i < 0 {
        None
    } else {
        Some((s.take(i), s.skip(i + needle.len())))
    }
}

/// `str::rsplit_once` on a piece of text.
pub fn rsplit_once_at(s: &str, needle: &str) -> (r: Option<(String, String)>)
    ensures
        match r {
            Some((a, b)) => spec_rsplit_once_at(s@, needle@) == Some((a@, b@)),
            None => spec_rsplit_once_at(s@, needle@) is None,
        },
{
    let chars = chars_of(s);
    let pattern = chars_of(needle);
    if pattern.len() > chars.len() {
        proof {
            lemma_rfind_is(s@, needle@, -1);
        }
        return None;
    }
    let len = chars.len();
    let last = len - pattern.len();
    let mut i: usize = last;
    loop
        invariant
            len == chars@.len(),
            chars@ == s@,
            pattern@ == needle@,
            pattern@.len() <= chars@.len(),
            last == chars@.len() - pattern@.len(),
            i <= last,
            forall|j: int| i < j <= last ==> #[trigger] chars@.subrange(j, j + pattern@.len()) != pattern@,
        decreases i,
    {
        if occurs_at(&chars, &pattern, i) {
            proof {
                lemma_rfind_is(s@, needle@, i as int);
            }
            let a = string_of(&chars, 0, i);
            let b = string_of(&chars, i + pattern.len(), chars.len());
            assert(a@ =~= s@.take(i as int));
            assert(b@ =~= s@.skip(i + needle@.len()));
            return Some((a, b));
        }
        if i == 0 {
            proof {
                lemma_rfind_is(s@, needle@, -1);
            }
            return None;
        }
        i = i - 1;
    }
}

/// `str::strip_prefix`.
pub open spec fn spec_strip_prefix(s: Seq<char>, p: Seq<char>) -> Option<Seq<char>> {
    if spec_starts_with(s, p) {
        Some(s.skip(p.len() as int))
    } else {
        None
    }
}

/// `str::strip_prefix`.
pub fn strip_prefix(s: &str, p: &str) -> (r: Option<String>)
    ensures
        match r {
            Some(rest) => spec_strip_prefix(s@, p@) == Some(rest@),
            None => spec_strip_prefix(s@, p@) is None,
        },
{
    let chars = chars_of(s);
    let prefix = chars_of(p);
    if starts_with(&chars, &prefix) {
        let rest = string_of(&chars, prefix.len(), chars.len());
        assert(rest@ =~= s@.skip(p@.len() as int));
        Some(rest)
    } else {
        None
    }
}

/// Whether a string begins with a prefix.
pub fn str_starts_with(s: &str, p: &str) -> (b: bool)
    ensures
        b == spec_starts_with(s@, p@),
{
    let chars = chars_of(s);
    let prefix = chars_of(p);
    starts_with(&chars, &prefix)
}

/// Whether a string carries a character.
pub fn has_char(s: &str, c: char) -> (b: bool)
    ensures
        b == spec_has_char(s@, c),
{
    let chars = chars_of(s);
    let found = find_char(&chars, c, 0);
    proof {
        assert(chars@.skip(0) =~= chars@);
    }
    found.is_some()
}

/// The characters `one` or `two`, for trimming by.
pub open spec fn either(one: char, two: char) -> spec_fn(char) -> bool {
    |c: char| c == one || c == two
}

/// `str::trim_matches` by a predicate: leading matches off, then trailing ones.
pub open spec fn spec_trim_by(s: Seq<char>, pred: spec_fn(char) -> bool) -> Seq<char> {
    let t = s.skip(spec_leading(s, pred) as int);
    t.take(t.len() - spec_trailing(t, pred))
}

/// `str::trim_end_matches` by a predicate.
pub open spec fn spec_trim_end_by(s: Seq<char>, pred: spec_fn(char) -> bool) -> Seq<char> {
    s.take(s.len() - spec_trailing(s, pred))
}

/// `str::trim_end_matches(|c| c == one || c == two)`.
pub fn trim_end_either(s: &str, one: char, two: char) -> (out: String)
    ensures
        out@ == spec_trim_end_by(s@, either(one, two)),
{
    let chars = chars_of(s);
    let mut hi: usize = chars.len();
    while hi > 0 && (chars[hi - 1] == one || chars[hi - 1] == two)
        invariant
            hi <= chars@.len(),
            forall|j: int| hi <= j < chars@.len() ==> (either(one, two))(chars@[j]),
        decreases hi,
    {
        hi = hi - 1;
    }
    proof {
        lemma_trailing_is(chars@, either(one, two), chars@.len() - hi);
    }
    let out = string_of(&chars, 0, hi);
    assert(out@ =~= chars@.take(hi as int));
    out
}

/// `str::trim_matches(|c| c == one || c == two)`.
pub fn trim_either(s: &str, one: char, two: char) -> (out: String)
    ensures
        out@ == spec_trim_by(s@, either(one, two)),
{
    let chars = chars_of(s);
    let mut lo: usize = 0;
    while lo < chars.len() && (chars[lo] == one || chars[lo] == two)
        invariant
            lo <= chars@.len(),
            forall|j: int| 0 <= j < lo ==> (either(one, two))(chars@[j]),
        decreases chars.len() - lo,
    {
        lo = lo + 1;
    }
    proof {
        lemma_leading_is(chars@, either(one, two), lo as int);
    }
    let rest = string_of(&chars, lo, chars.len());
    assert(rest@ =~= s@.skip(lo as int));
    trim_end_either(&rest, one, two)
}

} // verus!

verus! {

/// Three strings, one after the other.
pub fn concat3(a: &str, b: &str, c: &str) -> (out: String)
    ensures
        out@ == a@ + b@ + c@,
{
    let mut out = concat(a, b);
    out.append(c);
    out
}

/// Four strings, one after the other.
pub fn concat4(a: &str, b: &str, c: &str, d: &str) -> (out: String)
    ensures
        out@ == a@ + b@ + c@ + d@,
{
    let mut out = concat3(a, b, c);
    out.append(d);
    out
}

/// The view of an optional string.
pub open spec fn opt_view(o: Option<String>) -> Option<Seq<char>> {
    match o {
        Some(s) => Some(s@),
        None => None,
    }
}

/// Whether a list of strings holds one text.
pub fn contains_text(list: &[String], x: &str) -> (b: bool)
    ensures
        b == views(list@).contains(x@),
{
    let mut k: usize = 0;
    while k < list.len()
        invariant
            k <= list@.len(),
            forall|j: int| 0 <= j < k ==> list@[j]@ != x@,
        decreases list.len() - k,
    {
        if str_eq(&list[k], x) {
            proof {
                assert(views(list@)[k as int] == x@);
            }
            return true;
        }
        k = k + 1;
    }
    proof {
        if views(list@).contains(x@) {
            let w = choose|w: int| 0 <= w < views(list@).len() && views(list@)[w] == x@;
            assert(list@[w]@ == x@);
        }
    }
    false
}

/// The view of an optional string slice.
pub open spec fn opt_str_view(o: Option<&str>) -> Option<Seq<char>> {
    match o {
        Some(s) => Some(s@),
        None => None,
    }
}

/// The ASCII uppercasing of a string.
pub fn to_ascii_upper(s: &str) -> (out: String)
    ensures
        out@ == spec_ascii_upper_seq(s@),
{
    let chars = chars_of(s);
    let mut out = String::new();
    let mut i: usize = 0;
    while i < chars.len()
        invariant
            chars@ == s@,
            i <= chars@.len(),
            out@ == spec_ascii_upper_seq(chars@.take(i as int)),
        decreases chars.len() - i,
    {
        let c = ascii_upper(chars[i]);
        push_char(&mut out, c);
        assert(spec_ascii_upper_seq(chars@.take(i + 1)) =~= spec_ascii_upper_seq(
            chars@.take(i as int),
        ).push(c));
        i = i + 1;
    }
    assert(chars@.take(chars@.len() as int) =~= chars@);
    out
}

/// The views of a vector of pairs of strings.
pub open spec fn pair_views(v: Seq<(String, String)>) -> Seq<(Seq<char>, Seq<char>)> {
    v.map_values(|p: (String, String)| (p.0@, p.1@))
}

/// The views of a list of argument vectors.
pub open spec fn argv_views(v: Seq<Vec<String>>) -> Seq<Seq<Seq<char>>> {
    v.map_values(|a: Vec<String>| views(a@))
}

/// What `u64::from_str` reads: decimal digits, optionally after one `+`.
pub open spec fn spec_parse_unsigned(s: Seq<char>) -> Option<nat> {
    if s.len() > 1 && s[0] == '+' {
        spec_parse_decimal(s.drop_first())
    } else {
        spec_parse_decimal(s)
    }
}

/// `str::parse::<u64>`: the value, or `None` where the text is not one.
pub fn parse_unsigned(s: &str) -> (r: Option<u64>)
    ensures
        match r {
            Some(v) => spec_parse_unsigned(s@) == Some(v as nat),
            None => spec_parse_unsigned(s@) is None || spec_parse_unsigned(s@).unwrap()
                > u64::MAX,
        },
{
    let chars = chars_of(s);
    if chars.len() > 1 && chars[0] == '+' {
        let rest = string_of(&chars, 1, chars.len());
        assert(rest@ =~= s@.drop_first());
        parse_u64(&rest)
    } else {
        parse_u64(s)
    }
}

} // verus!

verus! {

/// `split` always yields at least one piece.
pub proof fn lemma_split_nonempty(s: Seq<char>, sep: char)
    ensures
        spec_split(s, sep).len() >= 1,
    decreases s.len(),
{
    let i = spec_index_of(s, sep);
    if i >= 0 {
        lemma_index_of(s, sep);
        lemma_split_nonempty(s.skip(i + 1), sep);
    }
}

/// Text with no `sep` in it splits into itself alone.
pub proof fn lemma_split_without(s: Seq<char>, sep: char)
    requires
        !spec_has_char(s, sep),
    ensures
        spec_split(s, sep) == seq![s],
{
    lemma_index_of(s, sep);
    if spec_index_of(s, sep) >= 0 {
        assert(s[spec_index_of(s, sep)] == sep);
    }
}

} // verus!

verus! {

/// A predicate holds of every character of `s` and one more exactly when it holds of
/// both.
pub proof fn lemma_all_push(s: Seq<char>, c: char, pred: spec_fn(char) -> bool)
    ensures
        spec_all(s.push(c), pred) == (spec_all(s, pred) && pred(c)),
{
    if spec_all(s.push(c), pred) {
        assert(s.push(c)[s.len() as int] == c);
        assert forall|i: int| 0 <= i < s.len() implies pred(s[i]) by {
            assert(s.push(c)[i] == s[i]);
        }
    }
    if spec_all(s, pred) && pred(c) {
        assert forall|i: int| 0 <= i < s.push(c).len() implies pred(s.push(c)[i]) by {
            if i < s.len() {
                assert(s.push(c)[i] == s[i]);
            }
        }
    }
}

} // verus!

verus! {

/// A number in decimal, zero-padded to at least `width` digits, as `{:0width$}`
/// formats it.
pub open spec fn spec_decimal_padded(n: nat, width: nat) -> Seq<char> {
    let digits = spec_decimal(n);
    if digits.len() >= width {
        digits
    } else {
        Seq::new((width - digits.len()) as nat, |_i: int| '0') + digits
    }
}

/// A number in decimal, zero-padded to `width` digits.
pub fn decimal_padded(n: u64, width: usize) -> (out: String)
    ensures
        out@ == spec_decimal_padded(n as nat, width as nat),
{
    let digits = decimal(n);
    let chars = chars_of(&digits);
    if chars.len() >= width {
        return digits;
    }
    let mut out = String::new();
    let pad = width - chars.len();
    let mut i: usize = 0;
    while i < pad
        invariant
            i <= pad,
            out@ == Seq::new(i as nat, |_i: int| '0'),
        decreases pad - i,
    {
        push_char(&mut out, '0');
        assert(out@ =~= Seq::new((i + 1) as nat, |_i: int| '0'));
        i = i + 1;
    }
    out.append(&digits);
    out
}

/// `str::strip_suffix`.
pub open spec fn spec_strip_suffix(s: Seq<char>, p: Seq<char>) -> Option<Seq<char>> {
    if spec_ends_with(s, p) {
        Some(s.take(s.len() - p.len()))
    } else {
        None
    }
}

/// `str::strip_suffix`.
pub fn strip_suffix(s: &str, p: &str) -> (r: Option<String>)
    ensures
        opt_view(r) == spec_strip_suffix(s@, p@),
{
    let chars = chars_of(s);
    let suffix = chars_of(p);
    if ends_with(&chars, &suffix) {
        let rest = string_of(&chars, 0, chars.len() - suffix.len());
        assert(rest@ =~= s@.take(s@.len() - p@.len()));
        Some(rest)
    } else {
        None
    }
}

/// Whether a string ends with a suffix.
pub fn str_ends_with(s: &str, p: &str) -> (b: bool)
    ensures
        b == spec_ends_with(s@, p@),
{
    let chars = chars_of(s);
    let suffix = chars_of(p);
    ends_with(&chars, &suffix)
}

} // verus!

verus! {

/// An `i64` in decimal.
pub fn signed_decimal64(n: i64) -> (out: String)
    ensures
        out@ == spec_signed_decimal(n as int),
{
    if n < 0 {
        let magnitude: u64 = if n == i64::MIN {
            9223372036854775808u64
        } else {
            (0 - n) as u64
        };
        let mut out = String::new();
        push_char(&mut out, '-');
        let digits = decimal(magnitude);
        out.append(&digits);
        assert(out@ =~= seq!['-'] + spec_decimal((-(n as int)) as nat));
        out
    } else {
        decimal(n as u64)
    }
}

/// A number's decimal digits read back as the number.
pub proof fn lemma_decimal_parses(n: nat)
    ensures
        spec_parse_decimal(spec_decimal(n)) == Some(n),
        spec_decimal(n).len() > 0,
        forall|i: int| 0 <= i < spec_decimal(n).len() ==> spec_is_ascii_digit(#[trigger] spec_decimal(n)[i]),
    decreases n,
{
    if n < 10 {
        assert(spec_decimal(n) == seq![spec_digit(n)]);
        assert(spec_digit(n) as nat == n + 48);
    } else {
        assert(n / 10 < n);
        lemma_decimal_parses(n / 10);
        let d = spec_decimal(n);
        assert(d == spec_decimal(n / 10).push(spec_digit(n % 10)));
        assert(d.drop_last() =~= spec_decimal(n / 10));
        assert(spec_digit(n % 10) as nat == n % 10 + 48);
        assert((n / 10) * 10 + n % 10 == n) by (nonlinear_arith);
        assert forall|i: int| 0 <= i < d.len() implies spec_is_ascii_digit(#[trigger] d[i]) by {
            if i < d.len() - 1 {
                assert(d[i] == spec_decimal(n / 10)[i]);
            }
        }
    }
}

proof fn lemma_zeros_parse(k: nat)
    requires
        k > 0,
    ensures
        spec_parse_decimal(Seq::new(k, |_i: int| '0')) == Some(0nat),
    decreases k,
{
    let z = Seq::new(k, |_i: int| '0');
    if k > 1 {
        lemma_zeros_parse((k - 1) as nat);
        assert(z.drop_last() =~= Seq::new((k - 1) as nat, |_i: int| '0'));
    }
}

proof fn lemma_zeros_before_digits(k: nat, d: Seq<char>)
    requires
        d.len() > 0,
        forall|i: int| 0 <= i < d.len() ==> spec_is_ascii_digit(#[trigger] d[i]),
    ensures
        spec_parse_decimal(Seq::new(k, |_i: int| '0') + d) == spec_parse_decimal(d),
    decreases d.len(),
{
    let z = Seq::new(k, |_i: int| '0');
    let s = z + d;
    assert(s.last() == d.last());
    if d.len() == 1 {
        if k > 0 {
            lemma_zeros_parse(k);
            assert(s.drop_last() =~= z);
        } else {
            assert(s =~= d);
        }
    } else {
        assert(s.drop_last() =~= z + d.drop_last());
        assert forall|i: int| 0 <= i < d.drop_last().len() implies spec_is_ascii_digit(#[trigger] d.drop_last()[i]) by {
            assert(d.drop_last()[i] == d[i]);
        }
        lemma_zeros_before_digits(k, d.drop_last());
    }
}

/// A number written zero-padded to any width reads back as the number.
pub proof fn lemma_decimal_padded_parses(n: nat, width: nat)
    ensures
        spec_parse_decimal(spec_decimal_padded(n, width)) == Some(n),
        spec_decimal_padded(n, width).len() > 0,
        spec_is_ascii_digit(spec_decimal_padded(n, width)[0]),
{
    lemma_decimal_parses(n);
    let digits = spec_decimal(n);
    if digits.len() < width {
        let k = (width - digits.len()) as nat;
        lemma_zeros_before_digits(k, digits);
        assert(spec_decimal_padded(n, width)[0] == '0');
    } else {
        assert(spec_is_ascii_digit(digits[0]));
    }
}

} // verus!
