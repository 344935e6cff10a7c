//! Identifiers and timestamps: the values every record and event is stamped with.

use vstd::prelude::*;

use crate::text::{self, spec_hex_padded, spec_is_ascii_alnum, spec_is_ascii_digit};

verus! {

/// What SHA-256 answers for a sequence of bytes.
pub uninterp spec fn spec_sha256(bytes: Seq<u8>) -> Seq<u8>;

/// A value's SHA-256, from the `sha2` crate: 32 bytes.
#[verifier::external_body]
fn sha256(bytes: &[u8]) -> (out: Vec<u8>)
    ensures
        out@ == spec_sha256(bytes@),
        out@.len() == 32,
{
    <sha2::Sha256 as sha2::Digest>::digest(bytes).to_vec()
}

/// Bytes as lowercase hex, two digits each, as `{:02x}` writes one.
pub open spec fn spec_hex_bytes(bytes: Seq<u8>) -> Seq<char>
    decreases bytes.len(),
{
    if bytes.len() == 0 {
        seq![]
    } else {
        spec_hex_bytes(bytes.drop_last()) + spec_hex_padded(bytes.last() as nat, 2)
    }
}

proof fn lemma_hex_byte_len(b: nat)
    requires
        b < 256,
    ensures
        spec_hex_padded(b, 2).len() == 2,
{
    let d = text::spec_in_radix(b, 16);
    if b < 16 {
        assert(d.len() == 1);
    } else {
        assert(b / 16 < 16);
        assert(text::spec_in_radix(b / 16, 16).len() == 1);
        assert(d.len() == 2);
    }
}

proof fn lemma_hex_bytes_len(bytes: Seq<u8>)
    ensures
        spec_hex_bytes(bytes).len() == 2 * bytes.len(),
    decreases bytes.len(),
{
    if bytes.len() > 0 {
        lemma_hex_bytes_len(bytes.drop_last());
        lemma_hex_byte_len(bytes.last() as nat);
    }
}

/// A lowercase hex digit: `0`-`9` or `a`-`f`.
pub open spec fn spec_is_lower_hex(c: char) -> bool {
    spec_is_ascii_digit(c) || ('a' <= c && c <= 'f')
}

proof fn lemma_digit_lower_hex(d: nat)
    requires
        d < 16,
    ensures
        spec_is_lower_hex(text::spec_digit(d)),
{
    if d < 10 {
        assert(((d + 48) as u32) as char == ((d + 48) as u32) as char);
        assert((((d + 48) as u32) as char) as int == d + 48);
    } else {
        assert((((d - 10 + 97) as u32) as char) as int == d - 10 + 97);
    }
}

proof fn lemma_radix_lower_hex(n: nat)
    ensures
        forall|i: int|
            0 <= i < text::spec_in_radix(n, 16).len() ==> spec_is_lower_hex(
                #[trigger] text::spec_in_radix(n, 16)[i],
            ),
    decreases n,
{
    if n < 16 {
        lemma_digit_lower_hex(n);
        assert(text::spec_in_radix(n, 16) == seq![text::spec_digit(n)]);
    } else {
        lemma_radix_lower_hex(n / 16);
        lemma_digit_lower_hex(n % 16);
        let high = text::spec_in_radix(n / 16, 16);
        let all = text::spec_in_radix(n, 16);
        assert(all == high.push(text::spec_digit(n % 16)));
        assert forall|i: int| 0 <= i < all.len() implies spec_is_lower_hex(#[trigger] all[i]) by {
            if i < high.len() {
                assert(all[i] == high[i]);
            }
        }
    }
}

proof fn lemma_hex_bytes_lower(bytes: Seq<u8>)
    ensures
        forall|i: int|
            0 <= i < spec_hex_bytes(bytes).len() ==> spec_is_lower_hex(#[trigger] spec_hex_bytes(bytes)[i]),
    decreases bytes.len(),
{
    if bytes.len() > 0 {
        lemma_hex_bytes_lower(bytes.drop_last());
        let b = bytes.last() as nat;
        lemma_radix_lower_hex(b);
        let digits = text::spec_in_radix(b, 16);
        let pair = spec_hex_padded(b, 2);
        assert forall|i: int| 0 <= i < pair.len() implies spec_is_lower_hex(#[trigger] pair[i]) by {
            if digits.len() < 2 {
                let pad = Seq::new((2 - digits.len()) as nat, |_i: int| '0');
                assert(pair == pad + digits);
                if i < pad.len() {
                    assert(pair[i] == '0');
                } else {
                    assert(pair[i] == digits[i - pad.len()]);
                }
            }
        }
        let before = spec_hex_bytes(bytes.drop_last());
        assert(spec_hex_bytes(bytes) == before + pair);
        assert forall|i: int| 0 <= i < spec_hex_bytes(bytes).len() implies spec_is_lower_hex(
            #[trigger] spec_hex_bytes(bytes)[i],
        ) by {
            if i < before.len() {
                assert(spec_hex_bytes(bytes)[i] == before[i]);
            } else {
                assert(spec_hex_bytes(bytes)[i] == pair[i - before.len()]);
            }
        }
    }
}

/// The SHA-256 of a string's UTF-8 bytes, hex encoded.
pub open spec fn spec_digest(value: Seq<char>) -> Seq<char> {
    spec_hex_bytes(spec_sha256(vstd::utf8::encode_utf8(value)))
}

/// A value's SHA-256, hex encoded: 64 lowercase hex digits.
///
/// Used to name a file after something that is not a filename — a lock is keyed by
/// an absolute path, and a path has separators in it.
pub fn digest(value: &str) -> (out: String)
    ensures
        out@ == spec_digest(value@),
        out@.len() == 64,
        forall|i: int| 0 <= i < 64 ==> spec_is_lower_hex(#[trigger] out@[i]),
{
    let bytes = value.as_bytes();
    let hashed = sha256(bytes);
    let mut out = String::new();
    let mut i: usize = 0;
    while i < hashed.len()
        invariant
            i <= hashed@.len(),
            out@ == spec_hex_bytes(hashed@.take(i as int)),
        decreases hashed.len() - i,
    {
        assert(hashed@.take(i + 1).drop_last() =~= hashed@.take(i as int));
        let pair = text::hex_padded(hashed[i] as u64, 2);
        out.append(&pair);
        i = i + 1;
    }
    assert(hashed@.take(hashed@.len() as int) =~= hashed@);
    proof {
        lemma_hex_bytes_len(hashed@);
        lemma_hex_bytes_lower(hashed@);
    }
    out
}

/// The first 12 hex characters of a value's SHA-256.
pub open spec fn spec_short_digest(value: Seq<char>) -> Seq<char> {
    spec_digest(value).take(12)
}

/// The first 12 hex characters of a value's SHA-256.
pub fn short_digest(value: &str) -> (out: String)
    ensures
        out@ == spec_short_digest(value@),
        out@.len() == 12,
        forall|i: int| 0 <= i < 12 ==> spec_is_lower_hex(#[trigger] out@[i]),
{
    let full = digest(value);
    let chars = text::chars_of(&full);
    text::string_of(&chars, 0, 12)
}

/// A session token, made from a value unique to this host: opaque by design, and
/// readable enough to paste. Its shape is fixed whatever the value: `s-` and twelve
/// lowercase hex digits, a name safe to use as a filename.
pub fn session_token(unique: &str) -> (out: String)
    ensures
        out@ == "s-"@ + spec_short_digest(unique@),
        out@.len() == 14,
        out@.take(2) == "s-"@,
        forall|i: int| 2 <= i < 14 ==> spec_is_lower_hex(#[trigger] out@[i]),
        spec_is_safe_name(out@),
{
    let short = short_digest(unique);
    let out = text::concat("s-", &short);
    proof {
        reveal_strlit("s-");
        assert(out@ =~= "s-"@ + short@);
        assert(out@.take(2) =~= "s-"@);
        assert forall|i: int| 2 <= i < 14 implies spec_is_lower_hex(#[trigger] out@[i]) by {
            assert(out@[i] == short@[i - 2]);
        }
        assert forall|i: int| 0 <= i < out@.len() implies spec_is_ascii_alnum(#[trigger] out@[i])
            || out@[i] == '-' || out@[i] == '_' || out@[i] == '.' by {
            if i >= 2 {
                assert(spec_is_lower_hex(out@[i]));
            }
        }
        assert(out@ != "."@) by {
            reveal_strlit(".");
        }
        assert(out@ != ".."@) by {
            reveal_strlit("..");
        }
    }
    out
}

/// An artifact id, as an event's `artifacts` entry references it: `a-` and twelve
/// lowercase hex digits, a name safe to use as a filename.
pub fn artifact_id(unique: &str) -> (out: String)
    ensures
        out@ == "a-"@ + spec_short_digest(unique@),
        out@.len() == 14,
        out@.take(2) == "a-"@,
        forall|i: int| 2 <= i < 14 ==> spec_is_lower_hex(#[trigger] out@[i]),
        spec_is_safe_name(out@),
{
    let short = short_digest(unique);
    let out = text::concat("a-", &short);
    proof {
        reveal_strlit("a-");
        assert(out@ =~= "a-"@ + short@);
        assert(out@.take(2) =~= "a-"@);
        assert forall|i: int| 2 <= i < 14 implies spec_is_lower_hex(#[trigger] out@[i]) by {
            assert(out@[i] == short@[i - 2]);
        }
        assert forall|i: int| 0 <= i < out@.len() implies spec_is_ascii_alnum(#[trigger] out@[i])
            || out@[i] == '-' || out@[i] == '_' || out@[i] == '.' by {
            if i >= 2 {
                assert(spec_is_lower_hex(out@[i]));
            }
        }
        assert(out@ != "."@) by {
            reveal_strlit(".");
        }
        assert(out@ != ".."@) by {
            reveal_strlit("..");
        }
    }
    out
}

/// Whether a caller-supplied identifier may be used as a filename.
///
/// A token and an artifact id both name a file under the state root, and both
/// arrive from outside. Anything that is not a plain name could leave the directory
/// it is looked up in.
pub open spec fn spec_is_safe_name(value: Seq<char>) -> bool {
    &&& value.len() > 0
    &&& value != "."@
    &&& value != ".."@
    &&& forall|i: int|
        0 <= i < value.len() ==> spec_is_ascii_alnum(#[trigger] value[i]) || value[i] == '-'
            || value[i] == '_' || value[i] == '.'
}

/// Whether a caller-supplied identifier may be used as a filename.
pub fn is_safe_name(value: &str) -> (b: bool)
    ensures
        b == spec_is_safe_name(value@),
{
    let chars = text::chars_of(value);
    if chars.len() == 0 || text::str_eq(value, ".") || text::str_eq(value, "..") {
        return false;
    }
    let mut i: usize = 0;
    while i < chars.len()
        invariant
            chars@ == value@,
            i <= chars@.len(),
            forall|j: int|
                0 <= j < i ==> spec_is_ascii_alnum(#[trigger] chars@[j]) || chars@[j] == '-'
                    || chars@[j] == '_' || chars@[j] == '.',
        decreases chars.len() - i,
    {
        let c = chars[i];
        if !(text::is_ascii_alnum(c) || c == '-' || c == '_' || c == '.') {
            return false;
        }
        i = i + 1;
    }
    true
}

/// The shape every stored timestamp has: `0000-00-00T00:00:00.000Z`, with a digit
/// wherever a `0` stands.
pub open spec fn spec_timestamp_shape() -> Seq<char> {
    seq![
        '0', '0', '0', '0', '-', '0', '0', '-', '0', '0', 'T', '0', '0', ':', '0', '0', ':',
        '0', '0', '.', '0', '0', '0', 'Z'
    ]
}

/// Whether a stored value is a timestamp of the shape this crate writes.
///
/// The **shape**, not a calendar date, and that is the point: this form is
/// fixed-width and UTC, so comparing two of them as strings orders them in time.
pub open spec fn spec_is_timestamp(value: Seq<char>) -> bool {
    let shape = spec_timestamp_shape();
    value.len() == shape.len() && forall|i: int|
        0 <= i < shape.len() ==> if shape[i] == '0' {
            spec_is_ascii_digit(#[trigger] value[i])
        } else {
            value[i] == shape[i]
        }
}

/// Whether a stored value is a timestamp of the shape this crate writes.
pub fn is_timestamp(value: &str) -> (b: bool)
    ensures
        b == spec_is_timestamp(value@),
{
    let shape: Vec<char> = vec![
        '0', '0', '0', '0', '-', '0', '0', '-', '0', '0', 'T', '0', '0', ':', '0', '0', ':',
        '0', '0', '.', '0', '0', '0', 'Z',
    ];
    assert(shape@ =~= spec_timestamp_shape());
    let chars = text::chars_of(value);
    if chars.len() != shape.len() {
        return false;
    }
    let mut i: usize = 0;
    while i < shape.len()
        invariant
            chars@ == value@,
            shape@ == spec_timestamp_shape(),
            chars@.len() == shape@.len(),
            i <= shape@.len(),
            forall|j: int|
                0 <= j < i ==> if shape@[j] == '0' {
                    spec_is_ascii_digit(#[trigger] chars@[j])
                } else {
                    chars@[j] == shape@[j]
                },
        decreases shape.len() - i,
    {
        let want = shape[i];
        let had = chars[i];
        if want == '0' {
            if !text::is_ascii_digit(had) {
                return false;
            }
        } else if had != want {
            return false;
        }
        i = i + 1;
    }
    true
}

} // verus!
