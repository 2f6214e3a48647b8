use vstd::prelude::*;

use crate::text::{chars_of, lines, lines_of, pieces, split_on, string_from_chars, views};

verus! {

/// `c` has the Unicode `White_Space` property (what std's
/// `char::is_whitespace` tests).
pub open spec fn white_space(c: char) -> bool {
    let cp = c as u32;
    ||| 0x09 <= cp <= 0x0D
    ||| cp == 0x20
    ||| cp == 0x85
    ||| cp == 0xA0
    ||| cp == 0x1680
    ||| 0x2000 <= cp <= 0x200A
    ||| cp == 0x2028
    ||| cp == 0x2029
    ||| cp == 0x202F
    ||| cp == 0x205F
    ||| cp == 0x3000
}

/// `l` is empty once surrounding white space is trimmed.
pub open spec fn blank(l: Seq<char>) -> bool {
    forall|i: int| 0 <= i < l.len() ==> white_space(#[trigger] l[i])
}

/// The second tab-separated column of each results row among `rows` that is
/// not blank and has at least two columns, in order.
pub open spec fn value_column(rows: Seq<Seq<char>>) -> Seq<Seq<char>>
    decreases rows.len(),
{
    if rows.len() == 0 {
        Seq::empty()
    } else {
        let front = value_column(rows.drop_last());
        let row = rows.last();
        let cols = pieces(row, '\t');
        if blank(row) || cols.len() < 2 {
            front
        } else {
            front.push(cols[1])
        }
    }
}

/// The lines after the header line.
pub open spec fn after_header(ls: Seq<Seq<char>>) -> Seq<Seq<char>> {
    if ls.len() == 0 {
        Seq::empty()
    } else {
        ls.skip(1)
    }
}

/// Whether `c` is white space.
pub fn is_white_space(c: char) -> (r: bool)
    ensures
        r == white_space(c),
{
    let cp = c as u32;
    (0x09 <= cp && cp <= 0x0D) || cp == 0x20 || cp == 0x85 || cp == 0xA0 || cp == 0x1680 || (0x2000
        <= cp && cp <= 0x200A) || cp == 0x2028 || cp == 0x2029 || cp == 0x202F || cp == 0x205F
        || cp == 0x3000
}

fn is_blank(l: &Vec<char>) -> (r: bool)
    ensures
        r == blank(l@),
{
    let mut i: usize = 0;
    while i < l.len()
        invariant
            i <= l.len(),
            forall|j: int| 0 <= j < i ==> white_space(#[trigger] l@[j]),
        decreases l.len() - i,
    {
        if !is_white_space(l[i]) {
            return false;
        }
        i = i + 1;
    }
    true
}

/// The texts in the value column (the second column) of the rows of a
/// results table, skipping its header line, blank lines and lines with fewer
/// than two columns.
pub fn value_column_texts(content: &str) -> (r: Vec<String>)
    ensures
        r@.len() == value_column(after_header(lines_of(content@))).len(),
        forall|i: int|
            0 <= i < r@.len() ==> #[trigger] r@[i]@ == value_column(after_header(lines_of(content@)))[i],
{
    let chars = chars_of(content);
    let ls = lines(&chars);
    let ghost rows = after_header(views(ls@));
    let mut out: Vec<String> = Vec::new();
    let mut k: usize = 1;
    assert(rows.take(0) =~= Seq::<Seq<char>>::empty());
    while k < ls.len()
        invariant
            1 <= k <= ls.len() || (k == 1 && ls.len() == 0),
            rows == after_header(views(ls@)),
            out@.len() == value_column(rows.take(k - 1)).len(),
            forall|i: int|
                0 <= i < out@.len() ==> #[trigger] out@[i]@ == value_column(rows.take(k - 1))[i],
        decreases ls.len() - k,
    {
        let row = &ls[k];
        assert(rows.take(k as int).drop_last() =~= rows.take(k - 1));
        assert(rows.take(k as int).last() == row@);
        let cols = split_on(row, '\t');
        assert(views(cols@) == pieces(row@, '\t'));
        if !is_blank(row) && cols.len() >= 2 {
            assert(views(cols@)[1] == cols@[1]@);
            let s = string_from_chars(&cols[1]);
            out.push(s);
        }
        k = k + 1;
    }
    if ls.len() > 0 {
        assert(rows.take(k - 1) =~= rows);
    } else {
        assert(rows =~= Seq::<Seq<char>>::empty());
    }
    out
}

} // verus!
