//! Text metadata: a map from keys to values, each key at most once, and the
//! values that the chat layer reads from it.
use vstd::prelude::*;

use crate::text::str_eq;

verus! {

/// A map from text keys to text values.
#[derive(Debug)]
pub struct Metadata {
    entries: Vec<(String, String)>,
}

pub open spec fn keys_distinct(e: Seq<(String, String)>) -> bool {
    forall|p: int, q: int| 0 <= p < q < e.len() ==> e[p].0@ != e[q].0@
}

/// The value stored under `key` in an entry list.
pub open spec fn lookup(e: Seq<(String, String)>, key: Seq<char>) -> Option<Seq<char>>
    decreases e.len(),
{
    if e.len() == 0 {
        None
    } else if e.last().0@ == key {
        Some(e.last().1@)
    } else {
        lookup(e.drop_last(), key)
    }
}

impl Metadata {
    pub closed spec fn entries(&self) -> Seq<(String, String)> {
        self.entries@
    }

    /// No key is stored twice.
    pub open spec fn wf(&self) -> bool {
        keys_distinct(self.entries())
    }

    /// The value under `key`.
    pub open spec fn get_spec(&self, key: Seq<char>) -> Option<Seq<char>> {
        lookup(self.entries(), key)
    }

    /// The keys, in the order in which they were first inserted.
    pub open spec fn key_seq(&self) -> Seq<Seq<char>> {
        self.entries().map_values(|e: (String, String)| e.0@)
    }

    pub fn new() -> (m: Metadata)
        ensures
            m.wf(),
            m.entries().len() == 0,
            forall|k: Seq<char>| m.get_spec(k) is None,
    {
        Metadata { entries: Vec::new() }
    }

    pub fn len(&self) -> (n: usize)
        ensures
            n == self.entries().len(),
    {
        self.entries.len()
    }

    /// The `i`-th entry.
    pub fn entry(&self, i: usize) -> (r: (&String, &String))
        requires
            i < self.entries().len(),
        ensures
            *r.0 == self.entries()[i as int].0,
            *r.1 == self.entries()[i as int].1,
    {
        (&self.entries[i].0, &self.entries[i].1)
    }

    /// A copy with the same entries.
    pub fn duplicate(&self) -> (r: Metadata)
        ensures
            r.entries() == self.entries(),
    {
        let mut entries: Vec<(String, String)> = Vec::new();
        let mut i: usize = 0;
        while i < self.entries.len()
            invariant
                i <= self.entries@.len(),
                entries@ == self.entries@.subrange(0, i as int),
            decreases self.entries@.len() - i,
        {
            let k = self.entries[i].0.clone();
            let v = self.entries[i].1.clone();
            entries.push((k, v));
            assert(entries@ =~= self.entries@.subrange(0, i + 1));
            i = i + 1;
        }
        assert(entries@ =~= self.entries@);
        Metadata { entries }
    }

    /// The value stored under `key`.
    pub fn get(&self, key: &str) -> (r: Option<&String>)
        ensures
            match r {
                Some(v) => self.get_spec(key@) == Some(v@),
                None => self.get_spec(key@) is None,
            },
    {
        let mut i: usize = self.entries.len();
        assert(self.entries@.subrange(0, i as int) =~= self.entries@);
        while i > 0
            invariant
                i <= self.entries@.len(),
                lookup(self.entries@, key@) == lookup(self.entries@.subrange(0, i as int), key@),
            decreases i,
        {
            let ghost pre = self.entries@.subrange(0, i as int);
            assert(pre.drop_last() =~= self.entries@.subrange(0, i - 1));
            if str_eq(self.entries[i - 1].0.as_str(), key) {
                return Some(&self.entries[i - 1].1);
            }
            i = i - 1;
        }
        None
    }

    /// Stores `value` under `key`, replacing what was there.
    pub fn insert(&mut self, key: String, value: String)
        requires
            old(self).wf(),
        ensures
            final(self).wf(),
            final(self).get_spec(key@) == Some(value@),
            forall|k: Seq<char>| k != key@ ==> final(self).get_spec(k) == old(self).get_spec(k),
    {
        let ghost e0 = self.entries@;
        let mut i: usize = 0;
        while i < self.entries.len()
            invariant
                i <= self.entries@.len(),
                self.entries@ == e0,
                old(self).entries@ == e0,
                keys_distinct(e0),
                forall|p: int| 0 <= p < i ==> e0[p].0@ != key@,
            decreases self.entries@.len() - i,
        {
            if str_eq(self.entries[i].0.as_str(), key.as_str()) {
                let old_key = self.entries[i].0.clone();
                self.entries.set(i, (old_key, value));
                proof {
                    lemma_lookup_set(e0, i as int, value, key@);
                    assert(self.entries@ == e0.update(i as int, (e0[i as int].0, value)));
                    assert forall|k: Seq<char>| k != key@ implies self.get_spec(k) == old(self).get_spec(k) by {
                        lemma_lookup_other(e0, i as int, value, k);
                        assert(old(self).entries() == e0);
                    }
                }
                return;
            }
            i = i + 1;
        }
        self.entries.push((key, value));
        proof {
            lemma_lookup_absent(e0, key@);
            assert(self.entries@.drop_last() =~= e0);
            let e1 = self.entries@;
            assert(e1.last().0@ == key@);
            assert forall|k: Seq<char>| k != key@ implies lookup(e1, k) == lookup(e0, k) by {
                assert(e1.drop_last() =~= e0);
                assert(e1.len() > 0);
                assert(e1.last().0@ != k);
            }
        }
    }
}

proof fn lemma_lookup_absent(e: Seq<(String, String)>, key: Seq<char>)
    requires
        forall|p: int| 0 <= p < e.len() ==> e[p].0@ != key,
    ensures
        lookup(e, key) is None,
    decreases e.len(),
{
    if e.len() > 0 {
        lemma_lookup_absent(e.drop_last(), key);
    }
}

proof fn lemma_lookup_at(e: Seq<(String, String)>, i: int)
    requires
        keys_distinct(e),
        0 <= i < e.len(),
    ensures
        lookup(e, e[i].0@) == Some(e[i].1@),
    decreases e.len(),
{
    if i < e.len() - 1 {
        lemma_lookup_at(e.drop_last(), i);
    }
}

proof fn lemma_lookup_set(e: Seq<(String, String)>, i: int, value: String, key: Seq<char>)
    requires
        keys_distinct(e),
        0 <= i < e.len(),
        e[i].0@ == key,
    ensures
        keys_distinct(e.update(i, (e[i].0, value))),
        lookup(e.update(i, (e[i].0, value)), key) == Some(value@),
        forall|k: Seq<char>| k != key ==> lookup(e.update(i, (e[i].0, value)), k) == lookup(e, k),
    decreases e.len(),
{
    let u = e.update(i, (e[i].0, value));
    lemma_lookup_at(u, i);
    assert forall|k: Seq<char>| k != key implies lookup(u, k) == lookup(e, k) by {
        lemma_lookup_other(e, i, value, k);
    }
}

proof fn lemma_lookup_other(e: Seq<(String, String)>, i: int, value: String, k: Seq<char>)
    requires
        0 <= i < e.len(),
        e[i].0@ != k,
    ensures
        lookup(e.update(i, (e[i].0, value)), k) == lookup(e, k),
    decreases e.len(),
{
    let u = e.update(i, (e[i].0, value));
    if e.len() > 0 {
        if i < e.len() - 1 {
            assert(u.drop_last() =~= e.drop_last().update(i, (e[i].0, value)));
            lemma_lookup_other(e.drop_last(), i, value, k);
        } else {
            assert(u.drop_last() =~= e.drop_last());
        }
    }
}

/// The decimal value of a text of digits, if it is one (`str::parse::<u64>`
/// without a sign).
pub open spec fn digits_value(s: Seq<char>) -> int
    decreases s.len(),
{
    if s.len() == 0 {
        0
    } else {
        digits_value(s.drop_last()) * 10 + ((s.last() as u32) - 48)
    }
}

pub open spec fn all_digits(s: Seq<char>) -> bool {
    forall|i: int| 0 <= i < s.len() ==> '0' <= #[trigger] s[i] <= '9'
}

/// What `str::parse::<u64>` returns: the value of a non-empty run of
/// decimal digits, optionally after a `+`, that fits in 64 bits.
pub open spec fn parse_u64_spec(s: Seq<char>) -> Option<u64> {
    let d = if s.len() > 0 && s[0] == '+' {
        s.drop_first()
    } else {
        s
    };
    if d.len() > 0 && all_digits(d) && digits_value(d) <= u64::MAX {
        Some(digits_value(d) as u64)
    } else {
        None
    }
}

/// `str::parse::<u64>`, `None` where it fails.
pub fn parse_u64(s: &str) -> (r: Option<u64>)
    ensures
        r == parse_u64_spec(s@),
{
    let n = s.unicode_len();
    let mut start: usize = 0;
    if n > 0 && s.get_char(0) == '+' {
        start = 1;
    }
    let ghost d = if s@.len() > 0 && s@[0] == '+' {
        s@.drop_first()
    } else {
        s@
    };
    assert(d =~= s@.subrange(start as int, n as int));
    if start >= n {
        assert(parse_u64_spec(s@) is None);
        return None;
    }
    let mut value: u64 = 0;
    let mut i: usize = start;
    while i < n
        invariant
            start <= i <= n,
            n == s@.len(),
            d == s@.subrange(start as int, n as int),
            d == (if s@.len() > 0 && s@[0] == '+' {
                s@.drop_first()
            } else {
                s@
            }),
            all_digits(s@.subrange(start as int, i as int)),
            value == digits_value(s@.subrange(start as int, i as int)),
        decreases n - i,
    {
        let c = s.get_char(i);
        let ghost pre = s@.subrange(start as int, i as int);
        let ghost next = s@.subrange(start as int, i + 1);
        assert(next.drop_last() =~= pre);
        if !('0' <= c && c <= '9') {
            assert(!all_digits(d)) by {
                assert(d[i - start] == c);
            }
            assert(parse_u64_spec(s@) is None);
            return None;
        }
        let digit = (c as u32 - 48) as u64;
        assert(digit < 10);
        if value > (u64::MAX - digit) / 10 {
            proof {
                assert(value * 10 + digit > u64::MAX) by (nonlinear_arith)
                    requires
                        value > (u64::MAX - digit) / 10,
                        digit < 10,
                ;
                assert(digits_value(next) == value * 10 + digit);
                if all_digits(d) {
                    lemma_digits_monotone(d, i - start + 1);
                    assert(d.subrange(0, i - start + 1) =~= next);
                    assert(digits_value(d) > u64::MAX);
                }
                assert(parse_u64_spec(s@) is None);
            }
            return None;
        }
        assert(value * 10 + digit <= u64::MAX) by (nonlinear_arith)
            requires
                value <= (u64::MAX - digit) / 10,
                digit < 10,
        ;
        value = value * 10 + digit;
        i = i + 1;
        assert(all_digits(s@.subrange(start as int, i as int))) by {
            assert forall|k: int| 0 <= k < next.len() implies '0' <= #[trigger] next[k] <= '9' by {
                if k < pre.len() {
                    assert(next[k] == pre[k]);
                }
            }
        }
    }
    Some(value)
}

proof fn lemma_digits_nonneg(d: Seq<char>)
    requires
        all_digits(d),
    ensures
        digits_value(d) >= 0,
    decreases d.len(),
{
    if d.len() > 0 {
        assert(all_digits(d.drop_last()));
        lemma_digits_nonneg(d.drop_last());
        assert('0' <= d[d.len() - 1] <= '9');
    }
}

proof fn lemma_digits_monotone(d: Seq<char>, k: int)
    requires
        all_digits(d),
        0 <= k <= d.len(),
    ensures
        digits_value(d.subrange(0, k)) <= digits_value(d),
    decreases d.len(),
{
    if k == d.len() {
        assert(d.subrange(0, k) =~= d);
    } else {
        let p = d.drop_last();
        assert(all_digits(p));
        lemma_digits_monotone(p, k);
        assert(p.subrange(0, k) =~= d.subrange(0, k));
        lemma_digits_nonneg(p);
        assert('0' <= d[d.len() - 1] <= '9');
    }
}

} // verus!
