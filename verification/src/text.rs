use vstd::prelude::*;

verus! {

/// The characters of `text`, in order.
pub fn chars_of(text: &str) -> (r: Vec<char>)
    ensures
        r@ == text@,
{
    let mut out: Vec<char> = Vec::new();
    for c in it: text.chars()
        invariant
            out@ == it.seq().take(it.index() as int),
    {
        out.push(c);
    }
    out
}

/// The string whose characters are `chars`.
///
/// Trusted: calls std's `FromIterator<&char>` for `String` (`collect`), which
/// builds the string holding exactly the iterated characters in order.
#[verifier::external_body]
pub fn string_from_chars(chars: &Vec<char>) -> (r: String)
    ensures
        r@ == chars@,
{
    chars.iter().collect()
}

/// The pieces of `s` between occurrences of `sep` (`n` separators give
/// `n + 1` pieces), as std's `split` with a `char` pattern yields them.
pub open spec fn pieces(s: Seq<char>, sep: char) -> Seq<Seq<char>>
    decreases s.len(),
{
    if s.len() == 0 {
        seq![Seq::<char>::empty()]
    } else {
        let p = pieces(s.drop_last(), sep);
        if s.last() == sep {
            p.push(Seq::<char>::empty())
        } else {
            p.update(p.len() - 1, p.last().push(s.last()))
        }
    }
}

/// `l` without one trailing carriage return.
pub open spec fn strip_cr(l: Seq<char>) -> Seq<char> {
    if l.len() > 0 && l.last() == '\r' {
        l.drop_last()
    } else {
        l
    }
}

/// The lines of `s` as std's `str::lines` yields them: split at `\n`, a
/// `\r` just before a `\n` dropped, and no empty last line after a final
/// line ending.
pub open spec fn lines_of(s: Seq<char>) -> Seq<Seq<char>> {
    let p = pieces(s, '\n');
    let done = Seq::new((p.len() - 1) as nat, |i: int| strip_cr(p[i]));
    if p.last().len() == 0 {
        done
    } else {
        done.push(p.last())
    }
}

/// The character sequences held by a vector of character vectors.
pub open spec fn views(v: Seq<Vec<char>>) -> Seq<Seq<char>> {
    Seq::new(v.len(), |i: int| v[i]@)
}

/// There is always at least one piece.
pub proof fn lemma_pieces_nonempty(s: Seq<char>, sep: char)
    ensures
        pieces(s, sep).len() >= 1,
    decreases s.len(),
{
    if s.len() > 0 {
        lemma_pieces_nonempty(s.drop_last(), sep);
    }
}

/// Splits `s` at every `sep`.
pub fn split_on(s: &Vec<char>, sep: char) -> (r: Vec<Vec<char>>)
    ensures
        views(r@) == pieces(s@, sep),
{
    let mut out: Vec<Vec<char>> = Vec::new();
    let mut cur: Vec<char> = Vec::new();
    let mut i: usize = 0;
    assert(s@.take(0) =~= Seq::<char>::empty());
    assert(views(out@).push(cur@) =~= pieces(s@.take(0), sep));
    while i < s.len()
        invariant
            i <= s.len(),
            views(out@).push(cur@) == pieces(s@.take(i as int), sep),
        decreases s.len() - i,
    {
        let c = s[i];
        let ghost before = views(out@).push(cur@);
        proof {
            lemma_pieces_nonempty(s@.take(i as int), sep);
            assert(s@.take(i + 1).drop_last() =~= s@.take(i as int));
            assert(s@.take(i + 1).last() == c);
        }
        if c == sep {
            out.push(cur);
            cur = Vec::new();
            assert(views(out@).push(cur@) =~= before.push(Seq::<char>::empty()));
        } else {
            cur.push(c);
            assert(views(out@).push(cur@) =~= before.update(
                before.len() - 1,
                before.last().push(c),
            ));
        }
        i = i + 1;
    }
    assert(s@.take(i as int) =~= s@);
    out.push(cur);
    out
}

/// Copy of `v`.
pub fn copy_chars(v: &Vec<char>) -> (r: Vec<char>)
    ensures
        r@ == v@,
{
    let r = v.clone();
    assert(r@ =~= v@);
    r
}

/// Copy of `l` without one trailing carriage return.
fn strip_cr_copy(l: &Vec<char>) -> (r: Vec<char>)
    ensures
        r@ == strip_cr(l@),
{
    let mut r = copy_chars(l);
    if r.len() > 0 && r[r.len() - 1] == '\r' {
        r.pop();
    }
    r
}

/// The lines of `s`, as std's `str::lines` yields them.
pub fn lines(s: &Vec<char>) -> (r: Vec<Vec<char>>)
    ensures
        views(r@) == lines_of(s@),
{
    let p = split_on(s, '\n');
    proof {
        lemma_pieces_nonempty(s@, '\n');
    }
    let n = p.len();
    let mut out: Vec<Vec<char>> = Vec::new();
    let mut k: usize = 0;
    while k + 1 < n
        invariant
            k + 1 <= n,
            n == p.len(),
            views(p@) == pieces(s@, '\n'),
            views(out@) =~= Seq::new(k as nat, |i: int| strip_cr(pieces(s@, '\n')[i])),
        decreases n - k,
    {
        let l = strip_cr_copy(&p[k]);
        let ghost prev = views(out@);
        out.push(l);
        assert(views(out@) =~= prev.push(l@));
        k = k + 1;
    }
    assert(views(p@)[k as int] == p[k as int]@);
    let ghost done = views(out@);
    if p[k].len() > 0 {
        let last = copy_chars(&p[k]);
        out.push(last);
        assert(views(out@) =~= done.push(last@));
    }
    out
}

/// Lines `ls`, each followed by a line feed.
pub open spec fn joined(ls: Seq<Seq<char>>) -> Seq<char>
    decreases ls.len(),
{
    if ls.len() == 0 {
        Seq::<char>::empty()
    } else {
        joined(ls.drop_last()) + ls.last() + seq!['\n']
    }
}

/// A line that `str::lines` gives back unchanged: no line feed inside and no
/// carriage return at its end.
pub open spec fn plain_line(l: Seq<char>) -> bool {
    &&& !l.contains('\n')
    &&& (l.len() == 0 || l.last() != '\r')
}

/// Text without a separator is a single piece.
pub proof fn lemma_pieces_no_sep(s: Seq<char>, sep: char)
    requires
        !s.contains(sep),
    ensures
        pieces(s, sep) == seq![s],
    decreases s.len(),
{
    if s.len() > 0 {
        let t = s.drop_last();
        assert(!t.contains(sep)) by {
            if t.contains(sep) {
                let k = choose|k: int| 0 <= k < t.len() && t[k] == sep;
                assert(s[k] == sep);
            }
        }
        lemma_pieces_no_sep(t, sep);
        assert(s[s.len() - 1] == s.last());
        if s.last() == sep {
            assert(s.contains(sep));
        }
        assert(t.push(s.last()) =~= s);
        assert(pieces(t, sep) == seq![t]);
        assert(pieces(s, sep) =~= seq![s]);
    } else {
        assert(s =~= Seq::<char>::empty());
    }
}

/// The pieces of a concatenation: the last piece of `s` joins the first
/// piece of `t`.
pub proof fn lemma_pieces_concat(s: Seq<char>, t: Seq<char>, sep: char)
    ensures
        pieces(s + t, sep) == pieces(s, sep).drop_last() + seq![
            pieces(s, sep).last() + pieces(t, sep)[0],
        ] + pieces(t, sep).drop_first(),
    decreases t.len(),
{
    lemma_pieces_nonempty(s, sep);
    lemma_pieces_nonempty(t, sep);
    let ps = pieces(s, sep);
    if t.len() == 0 {
        assert(s + t =~= s);
        assert(pieces(t, sep) =~= seq![Seq::<char>::empty()]);
        assert(ps.last() + Seq::<char>::empty() =~= ps.last());
        assert(ps.drop_last() + seq![ps.last()] =~= ps);
        assert(ps.drop_last() + seq![ps.last() + pieces(t, sep)[0]] + pieces(t, sep).drop_first()
            =~= ps);
    } else {
        let t2 = t.drop_last();
        let c = t.last();
        lemma_pieces_concat(s, t2, sep);
        lemma_pieces_nonempty(t2, sep);
        assert((s + t).drop_last() =~= s + t2);
        assert((s + t).last() == c);
        let p2 = pieces(t2, sep);
        let whole2 = pieces(s + t2, sep);
        if c == sep {
            assert(pieces(t, sep) == p2.push(Seq::<char>::empty()));
            assert(pieces(s + t, sep) == whole2.push(Seq::<char>::empty()));
            assert(pieces(t, sep)[0] == p2[0]);
            assert(pieces(t, sep).drop_first() =~= p2.drop_first().push(Seq::<char>::empty()));
            assert(pieces(s + t, sep) =~= ps.drop_last() + seq![ps.last() + pieces(t, sep)[0]]
                + pieces(t, sep).drop_first());
        } else {
            assert(pieces(t, sep) == p2.update(p2.len() - 1, p2.last().push(c)));
            assert(pieces(s + t, sep) == whole2.update(whole2.len() - 1, whole2.last().push(c)));
            if p2.len() == 1 {
                assert(pieces(t, sep)[0] == p2[0].push(c));
                assert(pieces(t, sep).drop_first() =~= Seq::<Seq<char>>::empty());
                assert(p2.drop_first() =~= Seq::<Seq<char>>::empty());
                assert((ps.last() + p2[0]).push(c) =~= ps.last() + p2[0].push(c));
                assert(pieces(s + t, sep) =~= ps.drop_last() + seq![ps.last() + pieces(t, sep)[0]]
                    + pieces(t, sep).drop_first());
            } else {
                assert(pieces(t, sep)[0] == p2[0]);
                assert(pieces(t, sep).drop_first() =~= p2.drop_first().update(
                    p2.len() - 2,
                    p2.last().push(c),
                ));
                assert(pieces(s + t, sep) =~= ps.drop_last() + seq![ps.last() + pieces(t, sep)[0]]
                    + pieces(t, sep).drop_first());
            }
        }
    }
}

/// Text without `sep`, followed by one `sep`, splits into the text and an
/// empty piece.
pub proof fn lemma_pieces_then_sep(l: Seq<char>, sep: char)
    requires
        !l.contains(sep),
    ensures
        pieces(l + seq![sep], sep) == seq![l, Seq::<char>::empty()],
{
    lemma_pieces_no_sep(l, sep);
    let nl = seq![sep];
    assert(nl.drop_last() =~= Seq::<char>::empty());
    assert(pieces(Seq::<char>::empty(), sep) == seq![Seq::<char>::empty()]);
    assert(nl.last() == sep);
    assert(pieces(nl, sep) =~= seq![Seq::<char>::empty(), Seq::<char>::empty()]);
    lemma_pieces_concat(l, nl, sep);
    assert(l + Seq::<char>::empty() =~= l);
    assert(pieces(l + nl, sep) =~= seq![l, Seq::<char>::empty()]);
}

/// Splitting `a`, a separator and `b`, where `a` has no separator: `a`, then
/// the pieces of `b`.
pub proof fn lemma_pieces_sep_join(a: Seq<char>, b: Seq<char>, sep: char)
    requires
        !a.contains(sep),
    ensures
        pieces(a + seq![sep] + b, sep) == seq![a] + pieces(b, sep),
{
    lemma_pieces_then_sep(a, sep);
    lemma_pieces_concat(a + seq![sep], b, sep);
    lemma_pieces_nonempty(b, sep);
    let pb = pieces(b, sep);
    assert(Seq::<char>::empty() + pb[0] =~= pb[0]);
    assert(seq![a] + seq![pb[0]] + pb.drop_first() =~= seq![a] + pb);
    assert(seq![a, Seq::<char>::empty()].drop_last() =~= seq![a]);
}

/// The pieces of lines each followed by a line feed are those lines and a
/// final empty piece.
pub proof fn lemma_pieces_joined(ls: Seq<Seq<char>>)
    requires
        forall|i: int| 0 <= i < ls.len() ==> !(#[trigger] ls[i]).contains('\n'),
    ensures
        pieces(joined(ls), '\n') == ls.push(Seq::<char>::empty()),
    decreases ls.len(),
{
    if ls.len() == 0 {
        assert(joined(ls) =~= Seq::<char>::empty());
        assert(ls.push(Seq::<char>::empty()) =~= seq![Seq::<char>::empty()]);
    } else {
        let front = ls.drop_last();
        let l = ls.last();
        assert forall|i: int| 0 <= i < front.len() implies !(#[trigger] front[i]).contains('\n') by {
            assert(front[i] == ls[i]);
        }
        lemma_pieces_joined(front);
        assert(!l.contains('\n')) by {
            assert(l == ls[ls.len() - 1]);
        }
        lemma_pieces_then_sep(l, '\n');
        let nl = seq!['\n'];
        let tail = l + nl;
        assert(joined(ls) == joined(front) + l + nl);
        assert(joined(front) + l + nl =~= joined(front) + tail);
        lemma_pieces_concat(joined(front), tail, '\n');
        let pf = front.push(Seq::<char>::empty());
        assert(pf.drop_last() =~= front);
        assert(pf.last() + l =~= l);
        assert(pieces(joined(ls), '\n') =~= ls.push(Seq::<char>::empty()));
    }
}

/// `str::lines` gives back plain lines joined with line feeds.
pub proof fn lemma_lines_of_joined(ls: Seq<Seq<char>>)
    requires
        forall|i: int| 0 <= i < ls.len() ==> plain_line(#[trigger] ls[i]),
    ensures
        lines_of(joined(ls)) == ls,
{
    assert forall|i: int| 0 <= i < ls.len() implies !(#[trigger] ls[i]).contains('\n') by {
        assert(plain_line(ls[i]));
    }
    lemma_pieces_joined(ls);
    let p = pieces(joined(ls), '\n');
    assert forall|i: int| 0 <= i < ls.len() implies strip_cr(p[i]) == ls[i] by {
        assert(p[i] == ls[i]);
        assert(plain_line(ls[i]));
    }
    assert(lines_of(joined(ls)) =~= ls);
}

} // verus!
