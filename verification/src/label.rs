//! The labels a caller stamps on a session, and the one grammar they are read by.
//!
//! A label is the join between a session and whatever opened it — a run, a node, a
//! launching process. What a key *means* is the caller's to declare; what this
//! module decides is only what a key and a value may be, so that a record carries
//! nothing a command line could not spell back as `--label KEY=VALUE` and a filter
//! over one compares strings that were read the same way they were written.

use vstd::prelude::*;

use crate::error::{invalid, Error, Result};
use crate::text::{self, spec_is_ascii_alnum, spec_split_once, str_eq};

verus! {

/// A key is `[A-Za-z0-9_-]+`.
pub open spec fn spec_valid_key(key: Seq<char>) -> bool {
    key.len() > 0 && forall|i: int|
        0 <= i < key.len() ==> spec_is_ascii_alnum(#[trigger] key[i]) || key[i] == '_' || key[i]
            == '-'
}

/// A value is any string without a newline: a label is printed on one line.
pub open spec fn spec_valid_value(value: Seq<char>) -> bool {
    forall|i: int| 0 <= i < value.len() ==> #[trigger] value[i] != '\n'
}

/// One `KEY=VALUE`, split at its first `=` and held to the grammar.
pub open spec fn spec_parse(spec: Seq<char>) -> Option<(Seq<char>, Seq<char>)> {
    match spec_split_once(spec, '=') {
        None => None,
        Some((key, value)) => if spec_valid_key(key) && spec_valid_value(value) {
            Some((key, value))
        } else {
            None
        },
    }
}

/// The value a list of pairs carries for one key, the first that names it.
pub open spec fn spec_get(pairs: Seq<(Seq<char>, Seq<char>)>, key: Seq<char>) -> Option<
    Seq<char>,
>
    decreases pairs.len(),
{
    if pairs.len() == 0 {
        None
    } else if pairs[0].0 == key {
        Some(pairs[0].1)
    } else {
        spec_get(pairs.drop_first(), key)
    }
}

/// Whether a list of pairs names a key at all.
pub open spec fn spec_has_key(pairs: Seq<(Seq<char>, Seq<char>)>, key: Seq<char>) -> bool {
    exists|i: int| 0 <= i < pairs.len() && #[trigger] pairs[i].0 == key
}

/// Every `KEY=VALUE` of a command line, as the pairs a record stores — or nothing,
/// where one is not a label or a key is given twice.
pub open spec fn spec_parse_all(specs: Seq<Seq<char>>) -> Option<Seq<(Seq<char>, Seq<char>)>>
    decreases specs.len(),
{
    if specs.len() == 0 {
        Some(seq![])
    } else {
        match (spec_parse_all(specs.drop_last()), spec_parse(specs.last())) {
            (Some(pairs), Some((key, value))) => if spec_has_key(pairs, key) {
                None
            } else {
                Some(pairs.push((key, value)))
            },
            _ => None,
        }
    }
}

/// The labels one session carries: one value per key, in key order.
#[derive(Debug)]
pub struct LabelMap {
    entries: Vec<(String, String)>,
}

impl View for LabelMap {
    type V = Seq<(Seq<char>, Seq<char>)>;

    closed spec fn view(&self) -> Seq<(Seq<char>, Seq<char>)> {
        self.entries@.map_values(|e: (String, String)| (e.0@, e.1@))
    }
}

/// The keys of a list of pairs, in its order.
pub open spec fn spec_keys(pairs: Seq<(Seq<char>, Seq<char>)>) -> Seq<Seq<char>> {
    pairs.map_values(|e: (Seq<char>, Seq<char>)| e.0)
}

/// Whether no key occurs twice.
pub open spec fn spec_distinct_keys(pairs: Seq<(Seq<char>, Seq<char>)>) -> bool {
    forall|i: int, j: int| 0 <= i < j < pairs.len() ==> #[trigger] pairs[i].0 != #[trigger] pairs[j].0
}

/// Whether two lists of pairs hold the same pairs.
pub open spec fn spec_same_pairs(a: Seq<(Seq<char>, Seq<char>)>, b: Seq<(Seq<char>, Seq<char>)>) -> bool {
    forall|pr: (Seq<char>, Seq<char>)| a.contains(pr) <==> b.contains(pr)
}

/// Lists holding the same pairs name the same keys.
proof fn lemma_same_pairs_same_keys(a: Seq<(Seq<char>, Seq<char>)>, b: Seq<(Seq<char>, Seq<char>)>)
    requires
        spec_same_pairs(a, b),
    ensures
        forall|k: Seq<char>| spec_has_key(a, k) <==> spec_has_key(b, k),
{
    assert forall|k: Seq<char>| spec_has_key(a, k) implies spec_has_key(b, k) by {
        let j = choose|j: int| 0 <= j < a.len() && #[trigger] a[j].0 == k;
        assert(a.contains(a[j]));
        let w = choose|w: int| 0 <= w < b.len() && b[w] == a[j];
        assert(b[w].0 == k);
    }
    assert forall|k: Seq<char>| spec_has_key(b, k) implies spec_has_key(a, k) by {
        let j = choose|j: int| 0 <= j < b.len() && #[trigger] b[j].0 == k;
        assert(b.contains(b[j]));
        let w = choose|w: int| 0 <= w < a.len() && a[w] == b[j];
        assert(a[w].0 == k);
    }
}

impl LabelMap {
    /// One value per key, the keys in `String`'s order.
    pub open spec fn wf(&self) -> bool {
        text::spec_strictly_sorted(spec_keys(self@))
    }

    /// No labels at all.
    pub fn new() -> (m: LabelMap)
        ensures
            m@ == Seq::<(Seq<char>, Seq<char>)>::empty(),
            m.wf(),
    {
        let m = LabelMap { entries: Vec::new() };
        assert(m@ =~= Seq::<(Seq<char>, Seq<char>)>::empty());
        m
    }

    /// How many labels there are.
    pub fn len(&self) -> (n: usize)
        ensures
            n == self@.len(),
    {
        self.entries.len()
    }

    /// The `i`th label, in key order.
    pub fn entry(&self, i: usize) -> (e: (&String, &String))
        requires
            i < self@.len(),
        ensures
            (e.0@, e.1@) == self@[i as int],
    {
        let entry = &self.entries[i];
        (&entry.0, &entry.1)
    }

    /// Whether a key is carried.
    pub fn contains_key(&self, key: &str) -> (b: bool)
        ensures
            b == spec_has_key(self@, key@),
    {
        let mut i: usize = 0;
        while i < self.entries.len()
            invariant
                i <= self@.len(),
                forall|j: int| 0 <= j < i ==> #[trigger] self@[j].0 != key@,
            decreases self.entries.len() - i,
        {
            if str_eq(&self.entries[i].0, key) {
                assert(self@[i as int].0 == key@);
                return true;
            }
            i = i + 1;
        }
        false
    }

    /// The value carried for one key.
    pub fn get(&self, key: &str) -> (v: Option<&String>)
        ensures
            match v {
                Some(value) => spec_get(self@, key@) == Some(value@),
                None => spec_get(self@, key@) is None,
            },
    {
        let mut i: usize = 0;
        assert(self@.skip(0) =~= self@);
        while i < self.entries.len()
            invariant
                i <= self@.len(),
                spec_get(self@, key@) == spec_get(self@.skip(i as int), key@),
            decreases self.entries.len() - i,
        {
            assert(self@.skip(i as int)[0] == self@[i as int]);
            assert(self@.skip(i as int).drop_first() =~= self@.skip(i + 1));
            if str_eq(&self.entries[i].0, key) {
                return Some(&self.entries[i].1);
            }
            i = i + 1;
        }
        None
    }

    /// Carry one more label, whose key is not carried yet, in its place in key
    /// order.
    pub fn insert(&mut self, key: String, value: String)
        requires
            old(self).wf(),
            !spec_has_key(old(self)@, key@),
        ensures
            final(self).wf(),
            final(self)@.len() == old(self)@.len() + 1,
            forall|pr: (Seq<char>, Seq<char>)|
                final(self)@.contains(pr) <==> (old(self)@.contains(pr) || pr == (key@, value@)),
    {
        let ghost s = self@;
        let ghost ks = spec_keys(s);
        let ghost k = key@;
        let ghost v = value@;
        // The first place whose key does not come before `key`.
        let mut p: usize = 0;
        while p < self.entries.len() && text::lex_lt(&self.entries[p].0, &key)
            invariant
                s == self@,
                ks == spec_keys(s),
                k == key@,
                p <= self@.len(),
                forall|j: int| 0 <= j < p ==> text::spec_lex_lt(#[trigger] ks[j], k),
            decreases self.entries.len() - p,
        {
            assert(ks[p as int] == self.entries@[p as int].0@);
            p = p + 1;
        }
        proof {
            if p < s.len() {
                assert(ks[p as int] == s[p as int].0);
                assert(ks[p as int] != k);
                text::lemma_lex_total(ks[p as int], k);
            }
        }
        let ghost before = self.entries@;
        self.entries.insert(p, (key, value));
        proof {
            assert(self.entries@ == before.insert(p as int, self.entries@[p as int]));
            assert(self@ =~= s.insert(p as int, (k, v)));
            let t = spec_keys(self@);
            assert(t =~= ks.insert(p as int, k));
            assert forall|i: int, j: int| 0 <= i < j < t.len() implies text::spec_lex_lt(
                #[trigger] t[i],
                #[trigger] t[j],
            ) by {
                if j < p {
                    assert(t[i] == ks[i] && t[j] == ks[j]);
                } else if j == p {
                    assert(t[i] == ks[i]);
                } else if i == p {
                    assert(t[j] == ks[j - 1]);
                    if j - 1 > p {
                        text::lemma_lex_transitive(k, ks[p as int], ks[j - 1]);
                    }
                } else if i < p {
                    assert(t[i] == ks[i] && t[j] == ks[j - 1]);
                } else {
                    assert(t[i] == ks[i - 1] && t[j] == ks[j - 1]);
                }
            }
            let n = self@;
            assert forall|pr: (Seq<char>, Seq<char>)| n.contains(pr) <==> (s.contains(pr) || pr == (
                k,
                v,
            )) by {
                if n.contains(pr) {
                    let w = choose|w: int| 0 <= w < n.len() && n[w] == pr;
                    if w < p {
                        assert(s[w] == pr);
                    } else if w > p {
                        assert(s[w - 1] == pr);
                    }
                }
                if s.contains(pr) {
                    let w = choose|w: int| 0 <= w < s.len() && s[w] == pr;
                    if w < p {
                        assert(n[w] == pr);
                    } else {
                        assert(n[w + 1] == pr);
                    }
                }
                if pr == (k, v) {
                    assert(n[p as int] == pr);
                }
            }
        }
    }

    /// The labels a list of pairs names, the later of two values for one key
    /// winning — which is how a map built from a literal reads.
    pub fn from_pairs(pairs: Vec<(String, String)>) -> (m: LabelMap)
        ensures
            m.wf(),
            forall|k: Seq<char>|
                spec_has_key(m@, k) <==> exists|i: int|
                    0 <= i < pairs@.len() && #[trigger] pairs@[i].0@ == k,
    {
        let mut m = LabelMap::new();
        let mut i: usize = pairs.len();
        // Taken from the back, so the first value met for a key is the last one
        // the list gave it.
        while i > 0
            invariant
                i <= pairs@.len(),
                m.wf(),
                forall|k: Seq<char>|
                    spec_has_key(m@, k) <==> exists|j: int|
                        i <= j < pairs@.len() && #[trigger] pairs@[j].0@ == k,
            decreases i,
        {
            let ghost hi = i;
            i = i - 1;
            let key = text::owned(&pairs[i].0);
            let value = text::owned(&pairs[i].1);
            let ghost before = m@;
            let held = m.contains_key(&key);
            if !held {
                m.insert(key, value);
            }
            proof {
                assert forall|k: Seq<char>| spec_has_key(m@, k) <==> (spec_has_key(before, k)
                    || k == pairs@[i as int].0@) by {
                    if !held {
                        let added = (pairs@[i as int].0@, pairs@[i as int].1@);
                        if spec_has_key(m@, k) {
                            let j = choose|j: int| 0 <= j < m@.len() && #[trigger] m@[j].0 == k;
                            assert(m@.contains(m@[j]));
                            if m@[j] != added {
                                let w = choose|w: int| 0 <= w < before.len() && before[w] == m@[j];
                                assert(before[w].0 == k);
                            }
                        }
                        if spec_has_key(before, k) {
                            let j = choose|j: int| 0 <= j < before.len() && #[trigger] before[j].0
                                == k;
                            assert(before.contains(before[j]));
                            let w = choose|w: int| 0 <= w < m@.len() && m@[w] == before[j];
                            assert(m@[w].0 == k);
                        }
                        if k == pairs@[i as int].0@ {
                            assert(m@.contains(added));
                            let w = choose|w: int| 0 <= w < m@.len() && m@[w] == added;
                            assert(m@[w].0 == k);
                        }
                    }
                }
                assert forall|k: Seq<char>|
                    spec_has_key(m@, k) <==> exists|j: int|
                        i <= j < pairs@.len() && #[trigger] pairs@[j].0@ == k by {
                    if spec_has_key(m@, k) {
                        if k == pairs@[i as int].0@ {
                            assert(pairs@[i as int].0@ == k);
                        } else {
                            assert(spec_has_key(before, k));
                            let j = choose|j: int| hi <= j < pairs@.len() && #[trigger] pairs@[j].0@
                                == k;
                            assert(pairs@[j].0@ == k);
                        }
                    }
                    if exists|j: int| i <= j < pairs@.len() && #[trigger] pairs@[j].0@ == k {
                        let j = choose|j: int| i <= j < pairs@.len() && #[trigger] pairs@[j].0@
                            == k;
                        if j > i {
                            assert(hi <= j < pairs@.len() && pairs@[j].0@ == k);
                            assert(spec_has_key(before, k));
                        }
                    }
                }
            }
        }
        m
    }
}

/// One `KEY=VALUE` as a command line spells it, checked and split.
///
/// The value is everything after the first `=`, so a value may carry one of its
/// own; the key may not, because a key is what a filter is written against.
pub fn parse(spec: &str) -> (r: Result<(String, String)>)
    ensures
        match r {
            Ok((key, value)) => spec_parse(spec@) == Some((key@, value@)),
            Err(e) => spec_parse(spec@) is None && e is Invalid,
        },
{
    let Some((key, value)) = text::split_once(spec, '=') else {
        let mut reason = text::debug_quoted(spec);
        reason.append(" is not a label; a label is spelled KEY=VALUE");
        return Err(invalid(reason));
    };
    check(&key, &value)?;
    Ok((key, value))
}

/// Every `KEY=VALUE` a command line supplied, as the labels a record stores.
///
/// A key given twice is refused rather than last-one-wins: a caller stamping a run
/// twice with two values has said two things, and a record that kept one of them
/// would be a record that quietly disagreed with the command that wrote it.
pub fn parse_all(specs: &[String]) -> (r: Result<LabelMap>)
    ensures
        match r {
            Ok(labels) => labels.wf() && (spec_parse_all(specs@.map_values(|s: String| s@)) matches Some(
                pairs,
            ) && spec_same_pairs(labels@, pairs)),
            Err(e) => spec_parse_all(specs@.map_values(|s: String| s@)) is None && e is Invalid,
        },
{
    let ghost all = specs@.map_values(|s: String| s@);
    let mut labels = LabelMap::new();
    let mut i: usize = 0;
    assert(all.take(0) =~= Seq::<Seq<char>>::empty());
    while i < specs.len()
        invariant
            all == specs@.map_values(|s: String| s@),
            i <= specs@.len(),
            labels.wf(),
            (spec_parse_all(all.take(i as int)) matches Some(pairs) && spec_same_pairs(labels@, pairs)),
        decreases specs.len() - i,
    {
        let ghost pairs = spec_parse_all(all.take(i as int)).unwrap();
        proof {
            assert(all.take(i + 1).drop_last() =~= all.take(i as int));
            assert(all.take(i + 1).last() == specs@[i as int]@);
            lemma_same_pairs_same_keys(labels@, pairs);
        }
        let parsed = parse(&specs[i]);
        let (key, value) = match parsed {
            Ok(pair) => pair,
            Err(e) => {
                proof {
                    lemma_parse_all_stays_none(all, i as int + 1);
                }
                return Err(e);
            },
        };
        if labels.contains_key(&key) {
            proof {
                lemma_parse_all_stays_none(all, i as int + 1);
            }
            let mut reason = text::owned("the label key ");
            let quoted = text::debug_quoted(&key);
            reason.append(&quoted);
            reason.append(" is given twice; a session carries one value per key");
            return Err(invalid(reason));
        }
        let ghost k = key@;
        let ghost v = value@;
        let ghost prior = labels@;
        labels.insert(key, value);
        proof {
            let grown = pairs.push((k, v));
            assert(spec_parse_all(all.take(i + 1)) == Some(grown));
            assert forall|pr: (Seq<char>, Seq<char>)| labels@.contains(pr) <==> grown.contains(pr) by {
                assert(labels@.contains(pr) == (prior.contains(pr) || pr == (k, v)));
                assert(prior.contains(pr) == pairs.contains(pr));
                if pr == (k, v) {
                    assert(grown[pairs.len() as int] == pr);
                }
                if pairs.contains(pr) {
                    let w = choose|w: int| 0 <= w < pairs.len() && pairs[w] == pr;
                    assert(grown[w] == pr);
                }
                if grown.contains(pr) {
                    let w = choose|w: int| 0 <= w < grown.len() && grown[w] == pr;
                    if w < pairs.len() {
                        assert(pairs[w] == pr);
                    }
                }
            }
        }
        i = i + 1;
    }
    assert(all.take(specs@.len() as int) =~= all);
    Ok(labels)
}

/// Once a prefix of the specs is refused, every longer prefix is refused too.
proof fn lemma_parse_all_stays_none(all: Seq<Seq<char>>, k: int)
    requires
        0 <= k <= all.len(),
        spec_parse_all(all.take(k)) is None,
    ensures
        spec_parse_all(all) is None,
    decreases all.len() - k,
{
    if k < all.len() {
        assert(all.take(k + 1).drop_last() =~= all.take(k));
        lemma_parse_all_stays_none(all, k + 1);
    } else {
        assert(all.take(k) =~= all);
    }
}

/// Whether every label of a map a library caller supplied is one a command line
/// could have spelled.
pub open spec fn spec_all_valid(pairs: Seq<(Seq<char>, Seq<char>)>) -> bool {
    forall|i: int|
        0 <= i < pairs.len() ==> spec_valid_key(#[trigger] pairs[i].0) && spec_valid_value(
            pairs[i].1,
        )
}

/// Refuse a map a library caller supplied that a command line could not have
/// spelled, so the record and the row read the same whichever way they were written.
pub fn validate(labels: &LabelMap) -> (r: Result<()>)
    ensures
        r is Ok <==> spec_all_valid(labels@),
        r matches Err(e) ==> e is Invalid,
{
    let mut i: usize = 0;
    while i < labels.len()
        invariant
            i <= labels@.len(),
            forall|j: int|
                0 <= j < i ==> spec_valid_key(#[trigger] labels@[j].0) && spec_valid_value(
                    labels@[j].1,
                ),
        decreases labels@.len() - i,
    {
        let (key, value) = labels.entry(i);
        assert(key@ == labels@[i as int].0 && value@ == labels@[i as int].1);
        match check(key, value) {
            Ok(()) => {
                assert(spec_valid_key(labels@[i as int].0) && spec_valid_value(
                    labels@[i as int].1,
                ));
            },
            Err(e) => {
                assert(!spec_all_valid(labels@)) by {
                    if spec_all_valid(labels@) {
                        assert(spec_valid_key(labels@[i as int].0) && spec_valid_value(
                            labels@[i as int].1,
                        ));
                    }
                }
                return Err(e);
            },
        }
        assert forall|j: int| 0 <= j < i + 1 implies spec_valid_key(#[trigger] labels@[j].0)
            && spec_valid_value(labels@[j].1) by {
            if j == i {
                assert(spec_valid_key(labels@[i as int].0));
            }
        }
        i = i + 1;
    }
    Ok(())
}

/// Whether the labels a row carries satisfy every pair a filter asked for.
pub open spec fn spec_matches(
    carried: Seq<(Seq<char>, Seq<char>)>,
    wanted: Seq<(Seq<char>, Seq<char>)>,
) -> bool {
    forall|i: int| 0 <= i < wanted.len() ==> spec_get(carried, #[trigger] wanted[i].0) == Some(wanted[i].1)
}

/// Whether the labels a row carries satisfy every pair a filter asked for.
pub fn matches(carried: &LabelMap, wanted: &LabelMap) -> (b: bool)
    ensures
        b == spec_matches(carried@, wanted@),
{
    let mut i: usize = 0;
    while i < wanted.len()
        invariant
            i <= wanted@.len(),
            forall|j: int|
                0 <= j < i ==> spec_get(carried@, #[trigger] wanted@[j].0) == Some(wanted@[j].1),
        decreases wanted@.len() - i,
    {
        let (key, value) = wanted.entry(i);
        match carried.get(key) {
            Some(held) => {
                if !str_eq(held, value) {
                    assert(spec_get(carried@, wanted@[i as int].0) != Some(wanted@[i as int].1));
                    return false;
                }
            },
            None => {
                assert(spec_get(carried@, wanted@[i as int].0) != Some(wanted@[i as int].1));
                return false;
            },
        }
        i = i + 1;
    }
    true
}

/// The grammar: a key is `[A-Za-z0-9_-]+`, and a value is any string without a
/// newline.
fn check(key: &str, value: &str) -> (r: Result<()>)
    ensures
        r is Ok <==> spec_valid_key(key@) && spec_valid_value(value@),
        r matches Err(e) ==> e is Invalid,
{
    let chars = text::chars_of(key);
    let mut good = chars.len() > 0;
    let mut i: usize = 0;
    while i < chars.len()
        invariant
            chars@ == key@,
            i <= chars@.len(),
            good <==> (chars@.len() > 0 && forall|j: int|
                0 <= j < i ==> spec_is_ascii_alnum(#[trigger] chars@[j]) || chars@[j] == '_'
                    || chars@[j] == '-'),
        decreases chars.len() - i,
    {
        let c = chars[i];
        if !(text::is_ascii_alnum(c) || c == '_' || c == '-') {
            good = false;
        }
        i = i + 1;
    }
    if !good {
        let mut reason = text::debug_quoted(key);
        reason.append(" is not a label key; a key is one or more of A-Z, a-z, 0-9, `_` and `-`",
        );
        return Err(invalid(reason));
    }
    let values = text::chars_of(value);
    match text::find_char(&values, '\n', 0) {
        Some(_) => {
            let mut reason = text::owned("the value of label ");
            let quoted = text::debug_quoted(key);
            reason.append(&quoted);
            reason.append(" holds a newline; a label's value is one line");
            Err(invalid(reason))
        },
        None => Ok(()),
    }
}

// ---------------------------------------------------------------------------
// Laws
// ---------------------------------------------------------------------------

/// A label reads back as what it was spelled from: every valid key and value,
/// written as `KEY=VALUE`, parses as that key and that value — however many `=` the
/// value itself holds.
pub proof fn lemma_parse_reads_back(key: Seq<char>, value: Seq<char>)
    requires
        spec_valid_key(key),
        spec_valid_value(value),
    ensures
        spec_parse(key + "="@ + value) == Some((key, value)),
{
    reveal_strlit("=");
    let s = key + "="@ + value;
    assert(s[key.len() as int] == '=');
    assert forall|j: int| 0 <= j < s.len() && j < key.len() implies s[j] != '=' by {
        assert(s[j] == key[j]);
    }
    text::lemma_index_of_is(s, '=', key.len() as int);
    assert(s.take(key.len() as int) =~= key);
    assert(s.skip(key.len() as int + 1) =~= value);
}

/// A filter asking for nothing is met by every row.
pub proof fn lemma_nothing_wanted_matches(carried: Seq<(Seq<char>, Seq<char>)>)
    ensures
        spec_matches(carried, seq![]),
{
}

/// Every set of labels meets a filter asking for exactly those labels.
pub proof fn lemma_labels_match_themselves(labels: Seq<(Seq<char>, Seq<char>)>)
    requires
        spec_distinct_keys(labels),
    ensures
        spec_matches(labels, labels),
{
    assert forall|i: int| 0 <= i < labels.len() implies spec_get(labels, #[trigger] labels[i].0)
        == Some(labels[i].1) by {
        lemma_get_distinct(labels, i);
    }
}

proof fn lemma_get_distinct(pairs: Seq<(Seq<char>, Seq<char>)>, i: int)
    requires
        spec_distinct_keys(pairs),
        0 <= i < pairs.len(),
    ensures
        spec_get(pairs, pairs[i].0) == Some(pairs[i].1),
    decreases i,
{
    if i > 0 {
        assert(pairs[0].0 != pairs[i].0);
        let rest = pairs.drop_first();
        assert forall|a: int, b: int| 0 <= a < b < rest.len() implies #[trigger] rest[a].0
            != #[trigger] rest[b].0 by {
            assert(rest[a] == pairs[a + 1]);
            assert(rest[b] == pairs[b + 1]);
        }
        assert(rest[i - 1] == pairs[i]);
        lemma_get_distinct(rest, i - 1);
    }
}

} // verus!
