use vstd::prelude::*;

use crate::numbers::{
    decimal, law_decimal_roundtrip, lemma_decimal_only_digits, parse_unsigned, parse_unsigned_spec,
    push_decimal, IntErrorKind,
};
use crate::text::{
    chars_of, joined, lemma_lines_of_joined, lemma_pieces_no_sep, lemma_pieces_sep_join, lines,
    lines_of, pieces, plain_line, split_on, string_from_chars, views,
};
use crate::tokenizer::TokenizerArtifacts;

verus! {

/// Why the text of a tokenizer file could not be read.
#[derive(Debug, Clone, Copy, PartialEq, Eq)]
pub enum TokenizerFileError {
    /// The file has no lines.
    MissingHeader,
    /// The first line does not start with `vocab_size=`.
    MalformedHeader,
    /// A number (the header's size, a code point or a byte count) is not a
    /// decimal integer of its width.
    BadNumber(IntErrorKind),
    /// A code point is not a Unicode scalar value.
    InvalidCodepoint,
    /// The number of entries differs from the header's size.
    SizeMismatch { found: usize, expected: usize },
}

/// What one entry line of a tokenizer file contributes.
pub enum EntryOutcome {
    /// The line does not have exactly three tab-separated columns.
    Skip,
    /// The line gives a token character and its byte count.
    Entry(char, u32),
    /// The line is malformed.
    Bad(TokenizerFileError),
}

/// `vocab_size=`
pub open spec fn header_prefix() -> Seq<char> {
    seq!['v', 'o', 'c', 'a', 'b', '_', 's', 'i', 'z', 'e', '=']
}

/// Entry line `index<TAB>code point<TAB>byte count`.
pub open spec fn entry_line(index: nat, c: char, nbytes: u32) -> Seq<char> {
    decimal(index) + seq!['\t'] + decimal(c as u32 as nat) + seq!['\t'] + decimal(nbytes as nat)
}

/// The lines of the tokenizer file for `vocab` with byte counts `bytes`.
pub open spec fn tokenizer_lines(vocab: Seq<char>, bytes: Seq<u32>) -> Seq<Seq<char>> {
    seq![header_prefix() + decimal(vocab.len())] + Seq::new(
        vocab.len(),
        |i: int| entry_line(i as nat, vocab[i], bytes[i]),
    )
}

/// The text of the tokenizer file: a header line `vocab_size=N`, then one
/// entry line per token, each line ended by a line feed.
pub open spec fn tokenizer_text(vocab: Seq<char>, bytes: Seq<u32>) -> Seq<char> {
    joined(tokenizer_lines(vocab, bytes))
}

/// What the entry line `line` contributes: lines without exactly three
/// tab-separated columns are skipped; the first column is not read.
pub open spec fn entry_of(line: Seq<char>) -> EntryOutcome {
    let cols = pieces(line, '\t');
    if cols.len() != 3 {
        EntryOutcome::Skip
    } else {
        match parse_unsigned_spec(cols[1], u32::MAX as nat) {
            Err(k) => EntryOutcome::Bad(TokenizerFileError::BadNumber(k)),
            Ok(cp) => if !vstd::utf8::is_scalar(cp as u32) {
                EntryOutcome::Bad(TokenizerFileError::InvalidCodepoint)
            } else {
                match parse_unsigned_spec(cols[2], u32::MAX as nat) {
                    Err(k) => EntryOutcome::Bad(TokenizerFileError::BadNumber(k)),
                    Ok(nb) => EntryOutcome::Entry(cp as u32 as char, nb as u32),
                }
            },
        }
    }
}

/// The tokens and byte counts of entry lines `ls`, or the first line's error.
pub open spec fn scan_entries(ls: Seq<Seq<char>>) -> Result<(Seq<char>, Seq<u32>), TokenizerFileError>
    decreases ls.len(),
{
    if ls.len() == 0 {
        Ok((Seq::<char>::empty(), Seq::<u32>::empty()))
    } else {
        match scan_entries(ls.drop_last()) {
            Err(e) => Err(e),
            Ok((v, b)) => match entry_of(ls.last()) {
                EntryOutcome::Skip => Ok((v, b)),
                EntryOutcome::Entry(c, n) => Ok((v.push(c), b.push(n))),
                EntryOutcome::Bad(e) => Err(e),
            },
        }
    }
}

/// What reading the tokenizer file text `content` gives.
pub open spec fn parse_tokenizer_spec(content: Seq<char>) -> Result<
    (Seq<char>, Seq<u32>),
    TokenizerFileError,
> {
    let ls = lines_of(content);
    if ls.len() == 0 {
        Err(TokenizerFileError::MissingHeader)
    } else if !(ls[0].len() >= 11 && ls[0].take(11) == header_prefix()) {
        Err(TokenizerFileError::MalformedHeader)
    } else {
        match parse_unsigned_spec(ls[0].skip(11), usize::MAX as nat) {
            Err(k) => Err(TokenizerFileError::BadNumber(k)),
            Ok(n) => match scan_entries(ls.skip(1)) {
                Err(e) => Err(e),
                Ok((v, b)) => if v.len() != n {
                    Err(
                        TokenizerFileError::SizeMismatch {
                            found: v.len() as usize,
                            expected: n as usize,
                        },
                    )
                } else {
                    Ok((v, b))
                },
            },
        }
    }
}

/// An error in the first `j` entry lines is the error of all of them.
pub proof fn lemma_scan_err_extends(ls: Seq<Seq<char>>, j: int)
    requires
        0 <= j <= ls.len(),
    ensures
        scan_entries(ls.take(j)) is Err ==> scan_entries(ls) == scan_entries(ls.take(j)),
    decreases ls.len() - j,
{
    if j < ls.len() {
        lemma_scan_err_extends(ls, j + 1);
        assert(ls.take(j + 1).drop_last() =~= ls.take(j));
    } else {
        assert(ls.take(j) =~= ls);
    }
}

/// The character of code point `cp`, if `cp` is a Unicode scalar value.
///
/// Trusted: calls std's `char::from_u32`, documented to return `None`
/// exactly when `cp` is not a valid `char` (a surrogate or above
/// `0x10FFFF`) and otherwise the `char` with that code point.
#[verifier::external_body]
fn char_from_code(cp: u32) -> (r: Option<char>)
    ensures
        r is Some <==> vstd::utf8::is_scalar(cp),
        r matches Some(c) ==> c as u32 == cp,
{
    char::from_u32(cp)
}

fn push_header_prefix(out: &mut Vec<char>)
    ensures
        final(out)@ == old(out)@ + header_prefix(),
{
    out.push('v');
    out.push('o');
    out.push('c');
    out.push('a');
    out.push('b');
    out.push('_');
    out.push('s');
    out.push('i');
    out.push('z');
    out.push('e');
    out.push('=');
    assert(final(out)@ =~= old(out)@ + header_prefix());
}

/// The text of the tokenizer file for `artifacts` (one line per token; extra
/// byte counts are not written).
pub fn format_tokenizer(artifacts: &TokenizerArtifacts) -> (r: String)
    requires
        artifacts.token_bytes.len() >= artifacts.vocab.len(),
    ensures
        r@ == tokenizer_text(artifacts.vocab@, artifacts.token_bytes@),
{
    let vocab = &artifacts.vocab;
    let bytes = &artifacts.token_bytes;
    let ghost ls = tokenizer_lines(vocab@, bytes@);
    let mut out: Vec<char> = Vec::new();
    push_header_prefix(&mut out);
    push_decimal(&mut out, vocab.len() as u64);
    out.push('\n');
    proof {
        assert(ls.take(1).drop_last() =~= Seq::<Seq<char>>::empty());
        assert(joined(Seq::<Seq<char>>::empty()) =~= Seq::<char>::empty());
        assert(out@ =~= joined(ls.take(1)));
    }
    let mut i: usize = 0;
    while i < vocab.len()
        invariant
            i <= vocab.len() <= bytes.len(),
            ls == tokenizer_lines(vocab@, bytes@),
            out@ == joined(ls.take(i + 1)),
        decreases vocab.len() - i,
    {
        let c = vocab[i];
        push_decimal(&mut out, i as u64);
        out.push('\t');
        push_decimal(&mut out, c as u32 as u64);
        out.push('\t');
        push_decimal(&mut out, bytes[i] as u64);
        out.push('\n');
        proof {
            assert(ls.take(i + 2).drop_last() =~= ls.take(i + 1));
            assert(ls.take(i + 2).last() == entry_line(i as nat, c, bytes@[i as int]));
            assert(out@ =~= joined(ls.take(i + 2)));
        }
        i = i + 1;
    }
    assert(ls.take(i + 1) =~= ls);
    string_from_chars(&out)
}

/// Reads the text of a tokenizer file.
pub fn parse_tokenizer(content: &str) -> (r: Result<TokenizerArtifacts, TokenizerFileError>)
    ensures
        match parse_tokenizer_spec(content@) {
            Ok((v, b)) => r matches Ok(a) && a.vocab@ == v && a.token_bytes@ == b,
            Err(e) => r == Err::<TokenizerArtifacts, TokenizerFileError>(e),
        },
{
    let chars = chars_of(content);
    let ls = lines(&chars);
    let ghost sl = views(ls@);
    if ls.len() == 0 {
        return Err(TokenizerFileError::MissingHeader);
    }
    let header = &ls[0];
    assert(sl[0] == header@);
    if header.len() < 11 {
        return Err(TokenizerFileError::MalformedHeader);
    }
    let mut h: usize = 0;
    let mut prefix_ok = true;
    assert(header@.take(0) =~= header_prefix().take(0));
    while h < 11
        invariant
            h <= 11 <= header.len(),
            prefix_ok <==> header@.take(h as int) == header_prefix().take(h as int),
        decreases 11 - h,
    {
        let want = if h == 0 {
            'v'
        } else if h == 1 {
            'o'
        } else if h == 2 {
            'c'
        } else if h == 3 {
            'a'
        } else if h == 4 {
            'b'
        } else if h == 5 {
            '_'
        } else if h == 6 {
            's'
        } else if h == 7 {
            'i'
        } else if h == 8 {
            'z'
        } else if h == 9 {
            'e'
        } else {
            '='
        };
        assert(want == header_prefix()[h as int]);
        proof {
            assert(header@.take(h + 1) =~= header@.take(h as int).push(header@[h as int]));
            assert(header_prefix().take(h + 1) =~= header_prefix().take(h as int).push(want));
            if header@.take(h + 1) == header_prefix().take(h + 1) {
                assert(header@.take(h as int) =~= header@.take(h + 1).drop_last());
                assert(header_prefix().take(h as int) =~= header_prefix().take(h + 1).drop_last());
                assert(header@[h as int] == header@.take(h + 1).last());
            }
        }
        if header[h] != want {
            prefix_ok = false;
        }
        h = h + 1;
    }
    assert(header_prefix().take(11) =~= header_prefix());
    if !prefix_ok {
        return Err(TokenizerFileError::MalformedHeader);
    }
    let size_text = vstd::slice::slice_subrange(header.as_slice(), 11, header.len());
    assert(size_text@ =~= header@.skip(11));
    assert(usize::MAX as u64 as nat == usize::MAX as nat);
    let expected = match parse_unsigned(size_text, usize::MAX as u64) {
        Ok(n) => {
            assert(parse_unsigned_spec(header@.skip(11), usize::MAX as nat) == Ok::<
                nat,
                IntErrorKind,
            >(n as nat));
            n as usize
        },
        Err(k) => {
            return Err(TokenizerFileError::BadNumber(k));
        },
    };
    let mut vocab: Vec<char> = Vec::new();
    let mut token_bytes: Vec<u32> = Vec::new();
    let mut k: usize = 1;
    assert(sl.subrange(1, 1) =~= Seq::<Seq<char>>::empty());
    while k < ls.len()
        invariant
            1 <= k <= ls.len(),
            sl == views(ls@),
            sl == lines_of(content@),
            sl.len() > 0,
            sl[0].len() >= 11 && sl[0].take(11) == header_prefix(),
            parse_unsigned_spec(sl[0].skip(11), usize::MAX as nat) == Ok::<nat, IntErrorKind>(
                expected as nat,
            ),
            scan_entries(sl.subrange(1, k as int)) == Ok::<
                (Seq<char>, Seq<u32>),
                TokenizerFileError,
            >((vocab@, token_bytes@)),
        decreases ls.len() - k,
    {
        let line = &ls[k];
        let ghost seen = sl.subrange(1, k as int);
        let ghost upto = sl.subrange(1, k + 1);
        assert(upto.drop_last() =~= seen);
        assert(upto.last() == line@);
        proof {
            lemma_scan_err_extends(sl.skip(1), k as int);
            assert(sl.skip(1).take(k as int) =~= upto);
        }
        let cols = split_on(line, '\t');
        assert(views(cols@) == pieces(line@, '\t'));
        if cols.len() == 3 {
            assert(views(cols@)[1] == cols@[1]@);
            assert(views(cols@)[2] == cols@[2]@);
            assert(u32::MAX as u64 as nat == u32::MAX as nat);
            let cp = match parse_unsigned(cols[1].as_slice(), u32::MAX as u64) {
                Ok(v) => v as u32,
                Err(e) => {
                    assert(entry_of(line@) == EntryOutcome::Bad(TokenizerFileError::BadNumber(e)));
                    assert(scan_entries(upto) == Err::<(Seq<char>, Seq<u32>), TokenizerFileError>(
                        TokenizerFileError::BadNumber(e),
                    ));
                    return Err(TokenizerFileError::BadNumber(e));
                },
            };
            let ch = match char_from_code(cp) {
                Some(c) => c,
                None => {
                    assert(entry_of(line@) == EntryOutcome::Bad(
                        TokenizerFileError::InvalidCodepoint,
                    ));
                    return Err(TokenizerFileError::InvalidCodepoint);
                },
            };
            let nb = match parse_unsigned(cols[2].as_slice(), u32::MAX as u64) {
                Ok(v) => v as u32,
                Err(e) => {
                    return Err(TokenizerFileError::BadNumber(e));
                },
            };
            proof {
                vstd::utf8::char_u32_cast(ch, cp);
            }
            vocab.push(ch);
            token_bytes.push(nb);
        }
        k = k + 1;
    }
    assert(sl.subrange(1, k as int) =~= sl.skip(1));
    if vocab.len() != expected {
        return Err(TokenizerFileError::SizeMismatch { found: vocab.len(), expected });
    }
    Ok(TokenizerArtifacts { vocab, token_bytes })
}

/// An entry line is read back as the token and byte count it was written
/// from.
pub proof fn lemma_entry_of_line(index: nat, c: char, nbytes: u32)
    ensures
        entry_of(entry_line(index, c, nbytes)) == EntryOutcome::Entry(c, nbytes),
{
    let di = decimal(index);
    let dc = decimal(c as u32 as nat);
    let db = decimal(nbytes as nat);
    lemma_decimal_only_digits(index);
    lemma_decimal_only_digits(c as u32 as nat);
    lemma_decimal_only_digits(nbytes as nat);
    let tab = seq!['\t'];
    lemma_pieces_no_sep(db, '\t');
    lemma_pieces_sep_join(dc, db, '\t');
    lemma_pieces_sep_join(di, dc + tab + db, '\t');
    assert(entry_line(index, c, nbytes) =~= di + tab + (dc + tab + db));
    let cols = pieces(entry_line(index, c, nbytes), '\t');
    assert(cols =~= seq![di, dc, db]);
    law_decimal_roundtrip(c as u32 as nat, u32::MAX as nat);
    law_decimal_roundtrip(nbytes as nat, u32::MAX as nat);
    vstd::utf8::char_is_scalar(c);
    vstd::utf8::char_u32_cast(c, c as u32);
}

/// The lines of a tokenizer file are plain lines.
proof fn lemma_tokenizer_lines_plain(vocab: Seq<char>, bytes: Seq<u32>)
    requires
        bytes.len() >= vocab.len(),
    ensures
        forall|i: int|
            0 <= i < tokenizer_lines(vocab, bytes).len() ==> plain_line(
                #[trigger] tokenizer_lines(vocab, bytes)[i],
            ),
{
    let ls = tokenizer_lines(vocab, bytes);
    assert forall|i: int| 0 <= i < ls.len() implies plain_line(#[trigger] ls[i]) by {
        if i == 0 {
            let h = header_prefix() + decimal(vocab.len());
            lemma_decimal_only_digits(vocab.len());
            assert(ls[0] == h);
            assert(!h.contains('\n')) by {
                if h.contains('\n') {
                    let k = choose|k: int| 0 <= k < h.len() && h[k] == '\n';
                    if k >= 11 {
                        assert(decimal(vocab.len())[k - 11] == '\n');
                    }
                }
            }
            assert(h.last() == decimal(vocab.len()).last());
        } else {
            let j = i - 1;
            let c = vocab[j];
            let di = decimal(j as nat);
            let dc = decimal(c as u32 as nat);
            let db = decimal(bytes[j] as nat);
            lemma_decimal_only_digits(j as nat);
            lemma_decimal_only_digits(c as u32 as nat);
            lemma_decimal_only_digits(bytes[j] as nat);
            let l = entry_line(j as nat, c, bytes[j]);
            assert(ls[i] == l);
            assert(!l.contains('\n')) by {
                if l.contains('\n') {
                    let k = choose|k: int| 0 <= k < l.len() && l[k] == '\n';
                    if k < di.len() {
                        assert(di[k] == '\n');
                    } else if k == di.len() {
                    } else if k < di.len() + 1 + dc.len() {
                        assert(dc[k - di.len() - 1] == '\n');
                    } else if k == di.len() + 1 + dc.len() {
                    } else {
                        assert(db[k - di.len() - 2 - dc.len()] == '\n');
                    }
                }
            }
            assert(l.last() == db.last());
        }
    }
}

/// Reading the entry lines of a tokenizer file gives back its tokens and
/// byte counts.
proof fn lemma_scan_entry_lines(vocab: Seq<char>, bytes: Seq<u32>, k: int)
    requires
        bytes.len() >= vocab.len(),
        0 <= k <= vocab.len(),
    ensures
        scan_entries(tokenizer_lines(vocab, bytes).skip(1).take(k)) == Ok::<
            (Seq<char>, Seq<u32>),
            TokenizerFileError,
        >((vocab.take(k), bytes.take(k))),
    decreases k,
{
    let es = tokenizer_lines(vocab, bytes).skip(1);
    if k == 0 {
        assert(es.take(0) =~= Seq::<Seq<char>>::empty());
        assert(vocab.take(0) =~= Seq::<char>::empty());
        assert(bytes.take(0) =~= Seq::<u32>::empty());
    } else {
        lemma_scan_entry_lines(vocab, bytes, k - 1);
        assert(es.take(k).drop_last() =~= es.take(k - 1));
        assert(es.take(k).last() == entry_line((k - 1) as nat, vocab[k - 1], bytes[k - 1]));
        lemma_entry_of_line((k - 1) as nat, vocab[k - 1], bytes[k - 1]);
        assert(vocab.take(k) =~= vocab.take(k - 1).push(vocab[k - 1]));
        assert(bytes.take(k) =~= bytes.take(k - 1).push(bytes[k - 1]));
    }
}

/// Reading back a written tokenizer file gives the vocabulary and byte
/// counts that were written.
pub proof fn law_tokenizer_file_roundtrip(vocab: Seq<char>, bytes: Seq<u32>)
    requires
        vocab.len() <= usize::MAX,
        bytes.len() >= vocab.len(),
    ensures
        parse_tokenizer_spec(tokenizer_text(vocab, bytes)) == Ok::<
            (Seq<char>, Seq<u32>),
            TokenizerFileError,
        >((vocab, bytes.take(vocab.len() as int))),
{
    let ls = tokenizer_lines(vocab, bytes);
    lemma_tokenizer_lines_plain(vocab, bytes);
    lemma_lines_of_joined(ls);
    let h = header_prefix() + decimal(vocab.len());
    assert(ls[0] == h);
    assert(h.take(11) =~= header_prefix());
    assert(h.skip(11) =~= decimal(vocab.len()));
    law_decimal_roundtrip(vocab.len(), usize::MAX as nat);
    lemma_scan_entry_lines(vocab, bytes, vocab.len() as int);
    assert(ls.skip(1).take(vocab.len() as int) =~= ls.skip(1));
    assert(vocab.take(vocab.len() as int) =~= vocab);
}

} // verus!
