use vstd::prelude::*;

use crate::text::{
    chars_of, joined, lemma_lines_of_joined, lines, lines_of, plain_line,
    string_from_chars, views,
};

verus! {

/// Position of the first `c` in `l`.
pub open spec fn find_char(l: Seq<char>, c: char) -> Option<nat>
    decreases l.len(),
{
    if l.len() == 0 {
        None
    } else if l[0] == c {
        Some(0)
    } else {
        match find_char(l.drop_first(), c) {
            Some(p) => Some(p + 1),
            None => None,
        }
    }
}

/// `find_char` gives the first occurrence, or none when there is none.
pub proof fn lemma_find_char(l: Seq<char>, c: char)
    ensures
        match find_char(l, c) {
            Some(p) => p < l.len() && l[p as int] == c && forall|j: int| 0 <= j < p ==> l[j] != c,
            None => !l.contains(c),
        },
    decreases l.len(),
{
    if l.len() > 0 && l[0] != c {
        let t = l.drop_first();
        lemma_find_char(t, c);
        match find_char(t, c) {
            Some(p) => {
                assert forall|j: int| 0 <= j < p + 1 implies l[j] != c by {
                    if j > 0 {
                        assert(l[j] == t[j - 1]);
                    }
                }
            },
            None => {
                if l.contains(c) {
                    let k = choose|k: int| 0 <= k < l.len() && l[k] == c;
                    assert(t[k - 1] == c);
                }
            },
        }
    }
}

/// `str::split_once('=')`: the text before and after the first `=`.
pub open spec fn split_at_eq(l: Seq<char>) -> Option<(Seq<char>, Seq<char>)> {
    match find_char(l, '=') {
        Some(p) => Some((l.take(p as int), l.skip(p as int + 1))),
        None => None,
    }
}

/// The key-value pairs of the lines of `content`, in order: each line with an
/// `=` gives the text before the first `=` and the text after it; other lines
/// give nothing.
pub open spec fn kv_pairs_of(ls: Seq<Seq<char>>) -> Seq<(Seq<char>, Seq<char>)>
    decreases ls.len(),
{
    if ls.len() == 0 {
        Seq::empty()
    } else {
        let front = kv_pairs_of(ls.drop_last());
        match split_at_eq(ls.last()) {
            Some(kv) => front.push(kv),
            None => front,
        }
    }
}

/// The value of `key` in `pairs`: that of its last pair.
pub open spec fn lookup(pairs: Seq<(Seq<char>, Seq<char>)>, key: Seq<char>) -> Option<Seq<char>>
    decreases pairs.len(),
{
    if pairs.len() == 0 {
        None
    } else if pairs.last().0 == key {
        Some(pairs.last().1)
    } else {
        lookup(pairs.drop_last(), key)
    }
}

/// Nothing is found among no pairs.
pub proof fn law_lookup_empty(key: Seq<char>)
    ensures
        lookup(Seq::empty(), key) is None,
{
}

/// A pair added last gives its key its value.
pub proof fn law_lookup_pushed_same(pairs: Seq<(Seq<char>, Seq<char>)>, key: Seq<char>, value: Seq<char>)
    ensures
        lookup(pairs.push((key, value)), key) == Some(value),
{
}

/// A pair added last for another key leaves the value of `key` as it was.
pub proof fn law_lookup_pushed_other(
    pairs: Seq<(Seq<char>, Seq<char>)>,
    other: Seq<char>,
    value: Seq<char>,
    key: Seq<char>,
)
    requires
        other != key,
    ensures
        lookup(pairs.push((other, value)), key) == lookup(pairs, key),
{
    assert(pairs.push((other, value)).drop_last() =~= pairs);
}

/// The value found for `key` is that of the last pair whose key is exactly
/// `key`; nothing is found when no pair has exactly that key.
pub proof fn law_lookup_last_exact(pairs: Seq<(Seq<char>, Seq<char>)>, key: Seq<char>)
    ensures
        lookup(pairs, key) matches Some(v) ==> exists|i: int|
            0 <= i < pairs.len() && pairs[i].0 == key && v == pairs[i].1 && forall|j: int|
                i < j < pairs.len() ==> pairs[j].0 != key,
        lookup(pairs, key) is None ==> forall|i: int| 0 <= i < pairs.len() ==> pairs[i].0 != key,
    decreases pairs.len(),
{
    if pairs.len() > 0 {
        let front = pairs.drop_last();
        let n = pairs.len() - 1;
        law_lookup_last_exact(front, key);
        if pairs.last().0 == key {
            assert(pairs[n].0 == key);
        } else {
            match lookup(front, key) {
                Some(v) => {
                    let i = choose|i: int|
                        0 <= i < front.len() && front[i].0 == key && v == front[i].1 && forall|j: int|
                            i < j < front.len() ==> front[j].0 != key;
                    assert(pairs[i] == front[i]);
                    assert forall|j: int| i < j < pairs.len() implies pairs[j].0 != key by {
                        if j < n {
                            assert(pairs[j] == front[j]);
                        }
                    }
                },
                None => {
                    assert forall|i: int| 0 <= i < pairs.len() implies pairs[i].0 != key by {
                        if i < n {
                            assert(pairs[i] == front[i]);
                        }
                    }
                },
            }
        }
    }
}

/// Line `key=value`.
pub open spec fn kv_line(kv: (Seq<char>, Seq<char>)) -> Seq<char> {
    kv.0 + seq!['='] + kv.1
}

/// The text of a key-value file: one `key=value` line per pair, each ended
/// by a line feed.
pub open spec fn kv_text(pairs: Seq<(Seq<char>, Seq<char>)>) -> Seq<char> {
    joined(Seq::new(pairs.len(), |i: int| kv_line(pairs[i])))
}

/// A key-value map read from text; a later line for a key replaces an
/// earlier one.
pub struct KvMap {
    entries: Vec<(Vec<char>, Vec<char>)>,
}

/// The character sequences of a vector of pairs of character vectors.
pub open spec fn pair_views(v: Seq<(Vec<char>, Vec<char>)>) -> Seq<(Seq<char>, Seq<char>)> {
    Seq::new(v.len(), |i: int| (v[i].0@, v[i].1@))
}

impl View for KvMap {
    type V = Seq<(Seq<char>, Seq<char>)>;

    /// Every pair read, in order.
    closed spec fn view(&self) -> Seq<(Seq<char>, Seq<char>)> {
        pair_views(self.entries@)
    }
}

/// `a` and `b` hold the same characters in the same order.
fn chars_eq(a: &Vec<char>, b: &Vec<char>) -> (r: bool)
    ensures
        r == (a@ == b@),
{
    if a.len() != b.len() {
        return false;
    }
    let mut i: usize = 0;
    while i < a.len()
        invariant
            i <= a.len() == b.len(),
            a@.take(i as int) == b@.take(i as int),
        decreases a.len() - i,
    {
        if a[i] != b[i] {
            return false;
        }
        assert(a@.take(i + 1) =~= a@.take(i as int).push(a@[i as int]));
        assert(b@.take(i + 1) =~= b@.take(i as int).push(b@[i as int]));
        i = i + 1;
    }
    assert(a@.take(i as int) =~= a@);
    assert(b@.take(i as int) =~= b@);
    true
}

impl KvMap {
    /// The value of `key`, from the last line that gives it.
    pub fn get(&self, key: &str) -> (r: Option<String>)
        ensures
            match lookup(self@, key@) {
                Some(v) => r matches Some(s) && s@ == v,
                None => r is None,
            },
            r matches Some(s) ==> exists|i: int|
                0 <= i < self@.len() && self@[i].0 == key@ && s@ == self@[i].1 && forall|j: int|
                    i < j < self@.len() ==> self@[j].0 != key@,
            r is None ==> forall|i: int| 0 <= i < self@.len() ==> self@[i].0 != key@,
    {
        proof {
            law_lookup_last_exact(self@, key@);
        }
        let k = chars_of(key);
        let mut i: usize = self.entries.len();
        assert(self@.take(i as int) =~= self@);
        while i > 0
            invariant
                i <= self.entries.len(),
                k@ == key@,
                lookup(self@, key@) == lookup(self@.take(i as int), key@),
            decreases i,
        {
            let entry = &self.entries[i - 1];
            let ghost front = self@.take(i as int);
            assert(front.drop_last() =~= self@.take(i - 1));
            assert(front.last() == (entry.0@, entry.1@));
            if chars_eq(&entry.0, &k) {
                proof {
                    law_lookup_last_exact(self@, key@);
                }
                return Some(string_from_chars(&entry.1));
            }
            i = i - 1;
        }
        None
    }
}

/// The characters of `l` from position `a` up to `b`.
fn copy_range(l: &Vec<char>, a: usize, b: usize) -> (r: Vec<char>)
    requires
        a <= b <= l.len(),
    ensures
        r@ == l@.subrange(a as int, b as int),
{
    let mut out: Vec<char> = Vec::new();
    let mut m: usize = a;
    while m < b
        invariant
            a <= m <= b <= l.len(),
            out@ == l@.subrange(a as int, m as int),
        decreases b - m,
    {
        out.push(l[m]);
        assert(l@.subrange(a as int, m + 1) =~= l@.subrange(a as int, m as int).push(l@[m as int]));
        m = m + 1;
    }
    out
}

/// The text before and after the first `=` of `l`, if it has one.
fn split_once_eq(l: &Vec<char>) -> (r: Option<(Vec<char>, Vec<char>)>)
    ensures
        match split_at_eq(l@) {
            Some(kv) => r matches Some(p) && p.0@ == kv.0 && p.1@ == kv.1,
            None => r is None,
        },
{
    proof {
        lemma_find_char(l@, '=');
    }
    let mut i: usize = 0;
    while i < l.len()
        invariant
            i <= l.len(),
            forall|j: int| 0 <= j < i ==> l@[j] != '=',
        decreases l.len() - i,
    {
        if l[i] == '=' {
            proof {
                lemma_find_char(l@, '=');
                match find_char(l@, '=') {
                    Some(p) => {
                        if p < i {
                            assert(l@[p as int] == '=');
                        } else if p > i {
                            assert(l@[i as int] == '=');
                        }
                    },
                    None => {
                        assert(l@[i as int] == '=');
                        assert(l@.contains('='));
                    },
                }
                assert(find_char(l@, '=') == Some(i as nat));
            }
            let key = copy_range(l, 0, i);
            let value = copy_range(l, i + 1, l.len());
            assert(l@.subrange(0, i as int) =~= l@.take(i as int));
            assert(l@.subrange(i + 1, l.len() as int) =~= l@.skip(i + 1));
            return Some((key, value));
        }
        i = i + 1;
    }
    proof {
        lemma_find_char(l@, '=');
        if find_char(l@, '=') is Some {
            let p = find_char(l@, '=')->0;
            assert(l@[p as int] == '=');
        }
    }
    None
}

/// Reads the text of a key-value file.
pub fn parse_kv(content: &str) -> (r: KvMap)
    ensures
        r@ == kv_pairs_of(lines_of(content@)),
{
    let chars = chars_of(content);
    let ls = lines(&chars);
    let ghost sl = views(ls@);
    let mut entries: Vec<(Vec<char>, Vec<char>)> = Vec::new();
    let mut i: usize = 0;
    while i < ls.len()
        invariant
            i <= ls.len(),
            sl == views(ls@),
            pair_views(entries@) == kv_pairs_of(sl.take(i as int)),
        decreases ls.len() - i,
    {
        let line = &ls[i];
        assert(sl.take(i + 1).drop_last() =~= sl.take(i as int));
        assert(sl.take(i + 1).last() == line@);
        match split_once_eq(line) {
            Some(kv) => {
                let ghost prev = pair_views(entries@);
                let ghost item = (kv.0@, kv.1@);
                entries.push(kv);
                assert(pair_views(entries@) =~= prev.push(item));
            },
            None => {},
        }
        i = i + 1;
    }
    assert(sl.take(i as int) =~= sl);
    KvMap { entries }
}

/// The text of a key-value file holding `pairs`, in order.
pub fn format_kv(pairs: &[(&str, String)]) -> (r: String)
    ensures
        r@ == kv_text(Seq::new(pairs@.len(), |i: int| (pairs@[i].0@, pairs@[i].1@))),
{
    let ghost ps = Seq::new(pairs@.len(), |i: int| (pairs@[i].0@, pairs@[i].1@));
    let ghost ls = Seq::new(ps.len(), |i: int| kv_line(ps[i]));
    let mut out: Vec<char> = Vec::new();
    let mut i: usize = 0;
    assert(ls.take(0) =~= Seq::<Seq<char>>::empty());
    while i < pairs.len()
        invariant
            i <= pairs@.len(),
            ps == Seq::new(pairs@.len(), |i: int| (pairs@[i].0@, pairs@[i].1@)),
            ls == Seq::new(ps.len(), |i: int| kv_line(ps[i])),
            out@ == joined(ls.take(i as int)),
        decreases pairs.len() - i,
    {
        let (k, v) = &pairs[i];
        let mut kc = chars_of(k);
        out.append(&mut kc);
        out.push('=');
        let mut vc = chars_of(v.as_str());
        out.append(&mut vc);
        out.push('\n');
        proof {
            assert(ls.take(i + 1).drop_last() =~= ls.take(i as int));
            assert(ls.take(i + 1).last() == kv_line(ps[i as int]));
            assert(out@ =~= joined(ls.take(i + 1)));
        }
        i = i + 1;
    }
    assert(ls.take(i as int) =~= ls);
    string_from_chars(&out)
}

/// A pair that a key-value file holds faithfully: the key has no `=` and no
/// line feed, the value has no line feed, and the line does not end with a
/// carriage return.
pub open spec fn storable(kv: (Seq<char>, Seq<char>)) -> bool {
    &&& !kv.0.contains('=')
    &&& !kv.0.contains('\n')
    &&& !kv.1.contains('\n')
    &&& (kv.1.len() == 0 || kv.1.last() != '\r')
}

/// A storable pair's line splits back into the pair.
proof fn lemma_split_kv_line(kv: (Seq<char>, Seq<char>))
    requires
        storable(kv),
    ensures
        split_at_eq(kv_line(kv)) == Some(kv),
        plain_line(kv_line(kv)),
{
    let l = kv_line(kv);
    let n = kv.0.len();
    assert(l[n as int] == '=');
    lemma_find_char(l, '=');
    match find_char(l, '=') {
        Some(p) => {
            if p < n {
                assert(kv.0[p as int] == '=');
            }
            assert(p == n);
        },
        None => {
            assert(l.contains('='));
        },
    }
    assert(l.take(n as int) =~= kv.0);
    assert(l.skip(n as int + 1) =~= kv.1);
    assert(!l.contains('\n')) by {
        if l.contains('\n') {
            let k = choose|k: int| 0 <= k < l.len() && l[k] == '\n';
            if k < n {
                assert(kv.0[k] == '\n');
            } else if k > n {
                assert(kv.1[k - n - 1] == '\n');
            }
        }
    }
    if kv.1.len() > 0 {
        assert(l.last() == kv.1.last());
    }
}

/// Reading back a written key-value file gives the pairs that were written,
/// when each pair is storable; so a key reads back the value of its last pair.
pub proof fn law_kv_roundtrip(pairs: Seq<(Seq<char>, Seq<char>)>)
    requires
        forall|i: int| 0 <= i < pairs.len() ==> storable(#[trigger] pairs[i]),
    ensures
        kv_pairs_of(lines_of(kv_text(pairs))) == pairs,
        forall|key: Seq<char>|
            lookup(kv_pairs_of(lines_of(kv_text(pairs))), key) == lookup(pairs, key),
{
    let ls = Seq::new(pairs.len(), |i: int| kv_line(pairs[i]));
    assert forall|i: int| 0 <= i < ls.len() implies plain_line(#[trigger] ls[i]) by {
        lemma_split_kv_line(pairs[i]);
    }
    lemma_lines_of_joined(ls);
    lemma_kv_pairs_of_lines(pairs, pairs.len() as int);
    assert(ls.take(pairs.len() as int) =~= ls);
    assert(pairs.take(pairs.len() as int) =~= pairs);
}

proof fn lemma_kv_pairs_of_lines(pairs: Seq<(Seq<char>, Seq<char>)>, k: int)
    requires
        forall|i: int| 0 <= i < pairs.len() ==> storable(#[trigger] pairs[i]),
        0 <= k <= pairs.len(),
    ensures
        kv_pairs_of(Seq::new(pairs.len(), |i: int| kv_line(pairs[i])).take(k)) == pairs.take(k),
    decreases k,
{
    let ls = Seq::new(pairs.len(), |i: int| kv_line(pairs[i]));
    if k == 0 {
        assert(ls.take(0) =~= Seq::<Seq<char>>::empty());
        assert(pairs.take(0) =~= Seq::<(Seq<char>, Seq<char>)>::empty());
    } else {
        lemma_kv_pairs_of_lines(pairs, k - 1);
        assert(ls.take(k).drop_last() =~= ls.take(k - 1));
        assert(ls.take(k).last() == kv_line(pairs[k - 1]));
        lemma_split_kv_line(pairs[k - 1]);
        assert(pairs.take(k) =~= pairs.take(k - 1).push(pairs[k - 1]));
    }
}

} // verus!
