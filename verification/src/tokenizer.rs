use std::collections::HashMap;
use vstd::prelude::*;

use crate::text::chars_of;

verus! {

broadcast use vstd::std_specs::hash::group_hash_axioms;

/// Largest vocabulary whose ids fit in the `u16` token storage.
pub const MAX_VOCAB: usize = 65535;

/// Characters strictly increasing by code point (hence pairwise distinct).
pub open spec fn strictly_ascending(s: Seq<char>) -> bool {
    forall|i: int, j: int| 0 <= i < j < s.len() ==> (s[i] as u32) < (s[j] as u32)
}

/// `a` and `b` hold the same characters (ignoring order and repetition).
pub open spec fn same_chars(a: Seq<char>, b: Seq<char>) -> bool {
    forall|c: char| a.contains(c) <==> b.contains(c)
}

/// `v` is the vocabulary of `text`: its distinct characters in ascending
/// code-point order.
pub open spec fn is_vocab_of(v: Seq<char>, text: Seq<char>) -> bool {
    strictly_ascending(v) && same_chars(v, text)
}

/// Number of distinct characters of `text`.
pub open spec fn distinct_chars(text: Seq<char>) -> nat {
    text.to_set().len()
}

/// Number of bytes of the UTF-8 encoding of `c`.
pub open spec fn utf8_len(c: char) -> u32 {
    let cp = c as u32;
    if cp < 0x80 {
        1
    } else if cp < 0x800 {
        2
    } else if cp < 0x10000 {
        3
    } else {
        4
    }
}

/// UTF-8 byte length of each character of `v`.
pub open spec fn utf8_lens(v: Seq<char>) -> Seq<u32> {
    Seq::new(v.len(), |i: int| utf8_len(v[i]))
}

/// Every character of `text` occurs in `vocab`.
pub open spec fn covers(vocab: Seq<char>, text: Seq<char>) -> bool {
    forall|i: int| 0 <= i < text.len() ==> vocab.contains(#[trigger] text[i])
}

/// `ids` spells `text` through `vocab`: each id indexes the character at the
/// same position.
pub open spec fn spells(vocab: Seq<char>, text: Seq<char>, ids: Seq<u16>) -> bool {
    &&& ids.len() == text.len()
    &&& forall|i: int|
        0 <= i < ids.len() ==> (#[trigger] ids[i] as int) < vocab.len() && vocab[ids[i] as int]
            == text[i]
}

/// Why a tokenizer could not be built or could not encode a text.
#[derive(Debug, Clone, Copy, PartialEq, Eq)]
pub enum TokenizerError {
    /// The corpus has no characters.
    EmptyCorpus,
    /// The corpus has this many distinct characters, more than `u16` ids allow.
    VocabTooLarge(usize),
    /// The text holds a character outside the vocabulary.
    UnknownChar(char),
}

/// The vocabulary of a tokenizer, with the UTF-8 byte length of each token.
#[derive(Debug, Clone)]
pub struct TokenizerArtifacts {
    pub vocab: Vec<char>,
    pub token_bytes: Vec<u32>,
}

/// A character-level tokenizer: token `i` is the `i`-th distinct character
/// of the corpus in code-point order.
#[derive(Debug)]
pub struct CharTokenizer {
    /// Token id of each vocabulary character, keyed by its code point.
    stoi: HashMap<u32, u16>,
    /// Vocabulary character of each token id.
    itos: Vec<char>,
    /// UTF-8 byte length of each token.
    token_bytes: Vec<u32>,
}

impl View for CharTokenizer {
    type V = Seq<char>;

    /// The vocabulary, indexed by token id.
    closed spec fn view(&self) -> Seq<char> {
        self.itos@
    }
}

/// Distinct characters have distinct code points.
pub proof fn lemma_code_injective(a: char, b: char)
    ensures
        (a as u32 == b as u32) <==> a == b,
{
    vstd::utf8::char_u32_cast(a, a as u32);
    vstd::utf8::char_u32_cast(b, b as u32);
}

/// UTF-8 byte length of `c`.
pub fn char_utf8_len(c: char) -> (n: u32)
    ensures
        n == utf8_len(c),
{
    let cp = c as u32;
    if cp < 0x80 {
        1
    } else if cp < 0x800 {
        2
    } else if cp < 0x10000 {
        3
    } else {
        4
    }
}

/// First position of `v` whose character is not below `c`.
fn lower_bound(v: &Vec<char>, c: char) -> (p: usize)
    requires
        strictly_ascending(v@),
    ensures
        p <= v.len(),
        forall|i: int| 0 <= i < p ==> (v@[i] as u32) < (c as u32),
        forall|i: int| p <= i < v.len() ==> (v@[i] as u32) >= (c as u32),
{
    let mut lo: usize = 0;
    let mut hi: usize = v.len();
    while lo < hi
        invariant
            lo <= hi <= v.len(),
            strictly_ascending(v@),
            forall|i: int| 0 <= i < lo ==> (v@[i] as u32) < (c as u32),
            forall|i: int| hi <= i < v.len() ==> (v@[i] as u32) >= (c as u32),
        decreases hi - lo,
    {
        let mid = lo + (hi - lo) / 2;
        if (v[mid] as u32) < (c as u32) {
            lo = mid + 1;
        } else {
            hi = mid;
        }
    }
    lo
}

/// Adds `c` to the ascending set `v` unless it is already there.
fn insert_sorted(v: &mut Vec<char>, c: char)
    requires
        strictly_ascending(old(v)@),
    ensures
        strictly_ascending(final(v)@),
        forall|x: char| final(v)@.contains(x) <==> (old(v)@.contains(x) || x == c),
{
    let p = lower_bound(v, c);
    if p < v.len() && v[p] == c {
        assert(v@[p as int] == c);
        return;
    }
    let ghost s = v@;
    proof {
        if p < s.len() {
            lemma_code_injective(s[p as int], c);
        }
    }
    v.insert(p, c);
    proof {
        s.insert_ensures(p as int, c);
        let t = v@;
        assert forall|i: int, j: int| 0 <= i < j < t.len() implies (t[i] as u32) < (t[j] as u32) by {
            if j < p {
            } else if j == p {
            } else if i < p {
                assert(t[j] == s[j - 1]);
            } else if i == p {
                assert(t[j] == s[j - 1]);
            } else {
                assert(t[i] == s[i - 1]);
                assert(t[j] == s[j - 1]);
            }
        }
        assert forall|x: char| t.contains(x) <==> (s.contains(x) || x == c) by {
            if t.contains(x) {
                let k = choose|k: int| 0 <= k < t.len() && t[k] == x;
                if k < p {
                    assert(s[k] == x);
                } else if k > p {
                    assert(s[k - 1] == x);
                }
            }
            if s.contains(x) {
                let k = choose|k: int| 0 <= k < s.len() && s[k] == x;
                if k < p {
                    assert(t[k] == x);
                } else {
                    assert(t[k + 1] == x);
                }
            }
            if x == c {
                assert(t[p as int] == x);
            }
        }
    }
}

/// The distinct characters of `text` in ascending code-point order.
fn sorted_distinct(text: &Vec<char>) -> (v: Vec<char>)
    ensures
        is_vocab_of(v@, text@),
{
    let mut v: Vec<char> = Vec::new();
    let mut i: usize = 0;
    while i < text.len()
        invariant
            i <= text.len(),
            strictly_ascending(v@),
            same_chars(v@, text@.take(i as int)),
        decreases text.len() - i,
    {
        let c = text[i];
        insert_sorted(&mut v, c);
        proof {
            let prev = text@.take(i as int);
            let next = text@.take(i + 1);
            assert(next =~= prev.push(c));
            assert forall|x: char| next.contains(x) <==> (prev.contains(x) || x == c) by {
                if next.contains(x) {
                    let k = choose|k: int| 0 <= k < next.len() && next[k] == x;
                    if k < i {
                        assert(prev[k] == x);
                    }
                }
                if prev.contains(x) {
                    let k = choose|k: int| 0 <= k < prev.len() && prev[k] == x;
                    assert(next[k] == x);
                }
                if x == c {
                    assert(next[i as int] == x);
                }
            }
        }
        i = i + 1;
    }
    assert(text@.take(i as int) =~= text@);
    v
}

/// A strictly ascending sequence has as many distinct elements as entries.
proof fn lemma_ascending_distinct_count(v: Seq<char>, text: Seq<char>)
    requires
        is_vocab_of(v, text),
    ensures
        v.len() == distinct_chars(text),
{
    assert(v.no_duplicates()) by {
        assert forall|i: int, j: int| 0 <= i < v.len() && 0 <= j < v.len() && i != j implies v[i]
            != v[j] by {
            if i < j {
                assert((v[i] as u32) < (v[j] as u32));
            } else {
                assert((v[j] as u32) < (v[i] as u32));
            }
        }
    }
    v.unique_seq_to_set();
    assert(v.to_set() =~= text.to_set()) by {
        assert forall|c: char| v.to_set().contains(c) <==> text.to_set().contains(c) by {
            assert(v.contains(c) <==> text.contains(c));
        }
    }
}

impl CharTokenizer {
    #[verifier::type_invariant]
    spec fn well_formed(self) -> bool {
        &&& 0 < self.itos.len() <= MAX_VOCAB
        &&& strictly_ascending(self.itos@)
        &&& self.token_bytes@ == utf8_lens(self.itos@)
        &&& forall|k: u32| #[trigger]
            self.stoi@.contains_key(k) ==> exists|j: int|
                0 <= j < self.itos.len() && (self.itos@[j] as u32) == k
        &&& forall|j: int|
            0 <= j < self.itos.len() ==> #[trigger] self.stoi@.contains_key(self.itos@[j] as u32)
                && self.stoi@[self.itos@[j] as u32] == j as u16
    }

    /// Builds the tokenizer of a corpus: the vocabulary is the corpus's
    /// distinct characters in ascending code-point order. Fails on an empty
    /// corpus, or when there are more distinct characters than `u16` ids.
    pub fn from_text(text: &str) -> (r: Result<Self, TokenizerError>)
        ensures
            text@.len() == 0 <==> r == Err::<Self, _>(TokenizerError::EmptyCorpus),
            text@.len() > 0 && distinct_chars(text@) > MAX_VOCAB <==> r == Err::<Self, _>(
                TokenizerError::VocabTooLarge(distinct_chars(text@) as usize),
            ),
            r is Ok <==> text@.len() > 0 && distinct_chars(text@) <= MAX_VOCAB,
            r matches Ok(t) ==> is_vocab_of(t@, text@),
            r matches Ok(t) ==> t@.len() == distinct_chars(text@),
            distinct_chars(text@) <= text@.len(),
    {
        proof {
            text@.lemma_cardinality_of_set();
        }
        let chars = chars_of(text);
        let itos = sorted_distinct(&chars);
        proof {
            lemma_ascending_distinct_count(itos@, text@);
            if text@.len() > 0 {
                assert(text@.contains(text@[0]));
                assert(itos@.contains(text@[0]));
            }
            if itos@.len() > 0 {
                assert(itos@.contains(itos@[0]));
                assert(text@.contains(itos@[0]));
            }
        }
        if itos.len() == 0 {
            return Err(TokenizerError::EmptyCorpus);
        }
        if itos.len() > MAX_VOCAB {
            return Err(TokenizerError::VocabTooLarge(itos.len()));
        }
        let mut stoi: HashMap<u32, u16> = HashMap::new();
        let mut token_bytes: Vec<u32> = Vec::new();
        let mut idx: usize = 0;
        while idx < itos.len()
            invariant
                idx <= itos.len() <= MAX_VOCAB,
                strictly_ascending(itos@),
                token_bytes@ == utf8_lens(itos@.take(idx as int)),
                forall|k: u32| #[trigger]
                    stoi@.contains_key(k) ==> exists|j: int| 0 <= j < idx && (itos@[j] as u32) == k,
                forall|j: int|
                    0 <= j < idx ==> #[trigger] stoi@.contains_key(itos@[j] as u32) && stoi@[itos@[j]
                        as u32] == j as u16,
            decreases itos.len() - idx,
        {
            let ch = itos[idx];
            let ghost before = stoi@;
            stoi.insert(ch as u32, idx as u16);
            token_bytes.push(char_utf8_len(ch));
            proof {
                assert forall|j: int| 0 <= j < idx + 1 implies #[trigger] stoi@.contains_key(
                    itos@[j] as u32,
                ) && stoi@[itos@[j] as u32] == j as u16 by {
                    if j < idx {
                        assert((itos@[j] as u32) < (itos@[idx as int] as u32));
                    }
                }
                assert forall|k: u32| #[trigger] stoi@.contains_key(k) implies exists|j: int|
                    0 <= j < idx + 1 && (itos@[j] as u32) == k by {
                    if k != ch as u32 {
                        assert(before.contains_key(k));
                    } else {
                        assert((itos@[idx as int] as u32) == k);
                    }
                }
                assert(utf8_lens(itos@.take(idx + 1)) =~= utf8_lens(itos@.take(idx as int)).push(
                    utf8_len(ch),
                ));
            }
            idx = idx + 1;
        }
        assert(itos@.take(idx as int) =~= itos@);
        Ok(CharTokenizer { stoi, itos, token_bytes })
    }

    /// Encodes `text` as token ids, failing on the first character outside
    /// the vocabulary.
    pub fn encode(&self, text: &str) -> (r: Result<Vec<u16>, TokenizerError>)
        ensures
            r is Ok <==> covers(self@, text@),
            r matches Ok(ids) ==> spells(self@, text@, ids@),
            r matches Err(e) ==> exists|j: int|
                0 <= j < text@.len() && e == TokenizerError::UnknownChar(text@[j])
                    && !self@.contains(text@[j]) && covers(self@, text@.take(j)),
    {
        proof {
            use_type_invariant(self);
        }
        let chars = chars_of(text);
        let mut out: Vec<u16> = Vec::new();
        let mut i: usize = 0;
        while i < chars.len()
            invariant
                i <= chars.len(),
                chars@ == text@,
                covers(self@, text@.take(i as int)),
                spells(self@, text@.take(i as int), out@),
            decreases chars.len() - i,
        {
            let ch = chars[i];
            proof {
                use_type_invariant(self);
            }
            match self.stoi.get(&(ch as u32)) {
                Some(id) => {
                    let id = *id;
                    proof {
                        let j = choose|j: int|
                            0 <= j < self.itos.len() && (self.itos@[j] as u32) == ch as u32;
                        lemma_code_injective(self.itos@[j], ch);
                        assert(self.stoi@[self.itos@[j] as u32] == j as u16);
                    }
                    out.push(id);
                    proof {
                        let prev = text@.take(i as int);
                        let next = text@.take(i + 1);
                        assert(next =~= prev.push(ch));
                        assert(self@.contains(ch));
                        assert forall|k: int| 0 <= k < next.len() implies self@.contains(
                            #[trigger] next[k],
                        ) by {
                            if k < i {
                                assert(next[k] == prev[k]);
                            }
                        }
                    }
                },
                None => {
                    proof {
                        if self@.contains(ch) {
                            let j = choose|j: int| 0 <= j < self.itos.len() && self.itos@[j] == ch;
                            assert(self.stoi@.contains_key(self.itos@[j] as u32));
                        }
                        assert(text@[i as int] == ch);
                    }
                    return Err(TokenizerError::UnknownChar(ch));
                },
            }
            i = i + 1;
        }
        proof {
            assert(text@.take(i as int) =~= text@);
        }
        Ok(out)
    }

    /// Number of tokens in the vocabulary.
    pub fn vocab_size(&self) -> (n: usize)
        ensures
            n == self@.len(),
            0 < n <= MAX_VOCAB,
    {
        proof {
            use_type_invariant(self);
        }
        self.itos.len()
    }

    /// The vocabulary and the UTF-8 byte length of each token.
    pub fn to_artifacts(&self) -> (a: TokenizerArtifacts)
        ensures
            a.vocab@ == self@,
            a.token_bytes@ == utf8_lens(self@),
    {
        proof {
            use_type_invariant(self);
        }
        TokenizerArtifacts { vocab: self.itos.clone(), token_bytes: self.token_bytes.clone() }
    }
}

/// Two ascending sequences with the same characters are equal.
proof fn lemma_ascending_same_chars_equal(a: Seq<char>, b: Seq<char>)
    requires
        strictly_ascending(a),
        strictly_ascending(b),
        same_chars(a, b),
    ensures
        a == b,
    decreases a.len(),
{
    if a.len() == 0 {
        if b.len() > 0 {
            assert(b.contains(b[0]));
        }
        assert(a =~= b);
    } else {
        assert(a.contains(a[0]));
        let n = a.len() - 1;
        let x = a[n];
        assert(a.contains(x));
        let m = b.len() - 1;
        let y = b[m];
        assert(b.contains(y));
        let ka = choose|k: int| 0 <= k < a.len() && a[k] == y;
        let kb = choose|k: int| 0 <= k < b.len() && b[k] == x;
        assert((x as u32) <= (y as u32)) by {
            if kb < m {
                assert((b[kb] as u32) < (b[m] as u32));
            }
        }
        assert((y as u32) <= (x as u32)) by {
            if ka < n {
                assert((a[ka] as u32) < (a[n] as u32));
            }
        }
        lemma_code_injective(x, y);
        let a2 = a.drop_last();
        let b2 = b.drop_last();
        assert forall|c: char| a2.contains(c) <==> b2.contains(c) by {
            if a2.contains(c) {
                let k = choose|k: int| 0 <= k < a2.len() && a2[k] == c;
                assert(a.contains(c));
                let j = choose|j: int| 0 <= j < b.len() && b[j] == c;
                assert((a[k] as u32) < (a[n] as u32));
                if j == m {
                    assert(c == y);
                }
                assert(b2[j] == c);
            }
            if b2.contains(c) {
                let k = choose|k: int| 0 <= k < b2.len() && b2[k] == c;
                assert(b.contains(c));
                let j = choose|j: int| 0 <= j < a.len() && a[j] == c;
                assert((b[k] as u32) < (b[m] as u32));
                if j == n {
                    assert(c == x);
                }
                assert(a2[j] == c);
            }
        }
        lemma_ascending_same_chars_equal(a2, b2);
        assert(a =~= a2.push(x));
        assert(b =~= b2.push(y));
    }
}

/// The vocabulary of a text is determined by the set of its characters: two
/// texts with the same characters have the same vocabulary.
pub proof fn law_vocab_determined(v1: Seq<char>, t1: Seq<char>, v2: Seq<char>, t2: Seq<char>)
    requires
        is_vocab_of(v1, t1),
        is_vocab_of(v2, t2),
        same_chars(t1, t2),
    ensures
        v1 == v2,
{
    assert forall|c: char| v1.contains(c) <==> v2.contains(c) by {
        assert(v1.contains(c) <==> t1.contains(c));
        assert(t1.contains(c) <==> t2.contains(c));
        assert(v2.contains(c) <==> t2.contains(c));
    }
    lemma_ascending_same_chars_equal(v1, v2);
}

/// Every stretch of the corpus a tokenizer was built from can be encoded.
pub proof fn law_corpus_parts_encode(v: Seq<char>, text: Seq<char>, lo: int, hi: int)
    requires
        is_vocab_of(v, text),
        0 <= lo <= hi <= text.len(),
    ensures
        covers(v, text.subrange(lo, hi)),
{
    assert forall|i: int| 0 <= i < hi - lo implies v.contains(#[trigger] text.subrange(lo, hi)[i]) by {
        assert(text.subrange(lo, hi)[i] == text[lo + i]);
        assert(text.contains(text[lo + i]));
    }
}

/// Decoding an encoding gives back the text, and with an ascending
/// vocabulary the encoding of a text is unique.
pub proof fn law_encoding_decodes(v: Seq<char>, text: Seq<char>, ids: Seq<u16>, other: Seq<u16>)
    requires
        strictly_ascending(v),
        spells(v, text, ids),
        spells(v, text, other),
    ensures
        Seq::new(ids.len(), |i: int| v[ids[i] as int]) == text,
        ids == other,
{
    assert(Seq::new(ids.len(), |i: int| v[ids[i] as int]) =~= text);
    assert forall|i: int| 0 <= i < ids.len() implies ids[i] == other[i] by {
        let a = ids[i] as int;
        let b = other[i] as int;
        assert(v[a] == v[b]);
        if a < b {
            assert((v[a] as u32) < (v[b] as u32));
        } else if b < a {
            assert((v[b] as u32) < (v[a] as u32));
        }
    }
    assert(ids =~= other);
}

/// Sum of the byte counts `tb` of the token ids `targets`.
pub open spec fn total_bytes(tb: Seq<u32>, targets: Seq<u32>) -> nat
    decreases targets.len(),
{
    if targets.len() == 0 {
        0
    } else {
        total_bytes(tb, targets.drop_last()) + tb[targets.last() as int] as nat
    }
}

/// The UTF-8 length of a character is the length of its UTF-8 encoding.
pub proof fn lemma_utf8_len_is_encoding_len(c: char)
    ensures
        vstd::utf8::encode_scalar(c as u32).len() == utf8_len(c),
{
    vstd::utf8::char_is_scalar(c);
}

/// The byte counts of a tokenizer, summed over the encoding of a text, give
/// the size of the text's UTF-8 encoding (the bytes of bits-per-byte).
pub proof fn law_token_bytes_total(v: Seq<char>, text: Seq<char>, ids: Seq<u16>)
    requires
        spells(v, text, ids),
    ensures
        total_bytes(utf8_lens(v), Seq::new(ids.len(), |i: int| ids[i] as u32))
            == vstd::utf8::encode_utf8(text).len(),
    decreases text.len(),
{
    let targets = Seq::new(ids.len(), |i: int| ids[i] as u32);
    if text.len() == 0 {
        assert(vstd::utf8::encode_utf8(text) =~= Seq::<u8>::empty());
    } else {
        let n = text.len() - 1;
        let front = text.drop_last();
        let ids2 = ids.drop_last();
        assert(spells(v, front, ids2));
        law_token_bytes_total(v, front, ids2);
        assert(targets.drop_last() =~= Seq::new(ids2.len(), |i: int| ids2[i] as u32));
        lemma_utf8_len_is_encoding_len(text[n]);
        lemma_encode_utf8_push(front, text[n]);
        assert(front.push(text[n]) =~= text);
        assert(v[ids[n] as int] == text[n]);
    }
}

/// Encoding a text extended by one character appends that character's
/// encoding.
proof fn lemma_encode_utf8_push(s: Seq<char>, c: char)
    ensures
        vstd::utf8::encode_utf8(s.push(c)) == vstd::utf8::encode_utf8(s) + vstd::utf8::encode_scalar(
            c as u32,
        ),
    decreases s.len(),
{
    if s.len() == 0 {
        assert(s.push(c).drop_first() =~= Seq::<char>::empty());
        assert(vstd::utf8::encode_utf8(Seq::<char>::empty()) =~= Seq::<u8>::empty());
        assert(vstd::utf8::encode_utf8(s.push(c)) =~= vstd::utf8::encode_scalar(c as u32));
        assert(vstd::utf8::encode_utf8(s) =~= Seq::<u8>::empty());
        assert(Seq::<u8>::empty() + vstd::utf8::encode_scalar(c as u32) =~= vstd::utf8::encode_scalar(
            c as u32,
        ));
    } else {
        lemma_encode_utf8_push(s.drop_first(), c);
        assert(s.push(c).drop_first() =~= s.drop_first().push(c));
        assert(s.push(c)[0] == s[0]);
        let e0 = vstd::utf8::encode_scalar(s[0] as u32);
        let rest = vstd::utf8::encode_utf8(s.drop_first());
        assert(e0 + (rest + vstd::utf8::encode_scalar(c as u32)) =~= (e0 + rest)
            + vstd::utf8::encode_scalar(c as u32));
    }
}

/// Sums over prefixes never exceed the sum over the whole sequence.
proof fn lemma_total_bytes_prefix(tb: Seq<u32>, targets: Seq<u32>, i: int)
    requires
        0 <= i <= targets.len(),
    ensures
        total_bytes(tb, targets.take(i)) <= total_bytes(tb, targets),
    decreases targets.len() - i,
{
    if i < targets.len() {
        lemma_total_bytes_prefix(tb, targets, i + 1);
        assert(targets.take(i + 1).drop_last() =~= targets.take(i));
    } else {
        assert(targets.take(i) =~= targets);
    }
}

/// Sum of the byte counts of the token ids `targets`.
pub fn sum_target_bytes(targets: &[u32], token_bytes: &[u32]) -> (r: u64)
    requires
        forall|i: int| 0 <= i < targets@.len() ==> (#[trigger] targets@[i] as int) < token_bytes@.len(),
        total_bytes(token_bytes@, targets@) <= u64::MAX,
    ensures
        r == total_bytes(token_bytes@, targets@),
{
    let mut total: u64 = 0;
    let mut i: usize = 0;
    while i < targets.len()
        invariant
            i <= targets@.len(),
            forall|j: int| 0 <= j < targets@.len() ==> (#[trigger] targets@[j] as int) < token_bytes@.len(),
            total_bytes(token_bytes@, targets@) <= u64::MAX,
            total == total_bytes(token_bytes@, targets@.take(i as int)),
        decreases targets.len() - i,
    {
        let id = targets[i];
        assert(targets@.take(i + 1).drop_last() =~= targets@.take(i as int));
        assert(targets@.take(i + 1).last() == id);
        proof {
            lemma_total_bytes_prefix(token_bytes@, targets@, i + 1);
        }
        total = total + token_bytes[id as usize] as u64;
        i = i + 1;
    }
    assert(targets@.take(i as int) =~= targets@);
    total
}

impl Clone for CharTokenizer {
    fn clone(&self) -> (r: Self)
        ensures
            r@ == self@,
    {
        proof {
            use_type_invariant(self);
        }
        let itos = self.itos.clone();
        let token_bytes = self.token_bytes.clone();
        assert(itos@ =~= self.itos@);
        assert(token_bytes@ =~= self.token_bytes@);
        CharTokenizer { stoi: self.stoi.clone(), itos, token_bytes }
    }
}

} // verus!
