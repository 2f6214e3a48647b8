use vstd::prelude::*;

verus! {

/// Why bytes are not a token file.
#[derive(Debug, Clone, Copy, PartialEq, Eq)]
pub enum TokenFileError {
    /// The byte length is odd.
    OddLength,
}

/// Tokens as consecutive little-endian 16-bit words.
pub open spec fn le_bytes(tokens: Seq<u16>) -> Seq<u8> {
    Seq::new(
        2 * tokens.len(),
        |i: int|
            if i % 2 == 0 {
                (tokens[i / 2] % 256) as u8
            } else {
                (tokens[i / 2] / 256) as u8
            },
    )
}

/// Consecutive little-endian 16-bit words of `bytes` (a trailing odd byte
/// is not read).
pub open spec fn le_words(bytes: Seq<u8>) -> Seq<u16> {
    Seq::new(bytes.len() / 2, |i: int| (bytes[2 * i] + 256 * bytes[2 * i + 1]) as u16)
}

/// The bytes of a token file holding `tokens`.
pub fn encode_tokens_le(tokens: &[u16]) -> (r: Vec<u8>)
    requires
        2 * tokens@.len() <= usize::MAX,
    ensures
        r@ == le_bytes(tokens@),
{
    let mut out: Vec<u8> = Vec::with_capacity(tokens.len() * 2);
    let mut i: usize = 0;
    while i < tokens.len()
        invariant
            i <= tokens@.len(),
            2 * tokens@.len() <= usize::MAX,
            out@ == le_bytes(tokens@.take(i as int)),
        decreases tokens.len() - i,
    {
        let t = tokens[i];
        out.push((t % 256) as u8);
        out.push((t / 256) as u8);
        proof {
            let prev = tokens@.take(i as int);
            let next = tokens@.take(i + 1);
            assert(next =~= prev.push(t));
            assert forall|j: int| 0 <= j < 2 * next.len() implies out@[j] == le_bytes(next)[j] by {
                if j < 2 * i {
                    assert(next[j / 2] == prev[j / 2]);
                }
            }
            assert(out@ =~= le_bytes(next));
        }
        i = i + 1;
    }
    assert(tokens@.take(i as int) =~= tokens@);
    out
}

/// Reads a token file: consecutive little-endian 16-bit words; odd byte
/// lengths are refused.
pub fn decode_tokens_le(bytes: &[u8]) -> (r: Result<Vec<u16>, TokenFileError>)
    ensures
        bytes@.len() % 2 != 0 <==> r == Err::<Vec<u16>, TokenFileError>(TokenFileError::OddLength),
        r matches Ok(t) ==> t@ == le_words(bytes@),
{
    if bytes.len() % 2 != 0 {
        return Err(TokenFileError::OddLength);
    }
    let n = bytes.len() / 2;
    let mut out: Vec<u16> = Vec::with_capacity(n);
    let mut i: usize = 0;
    while i < n
        invariant
            i <= n,
            n == bytes@.len() / 2,
            2 * n == bytes@.len(),
            bytes@.len() == bytes.len(),
            bytes@.len() % 2 == 0,
            out@ =~= le_words(bytes@).take(i as int),
        decreases n - i,
    {
        let lo = bytes[2 * i] as u16;
        let hi = bytes[2 * i + 1] as u16;
        out.push(lo + 256 * hi);
        i = i + 1;
    }
    assert(le_words(bytes@).take(n as int) =~= le_words(bytes@));
    Ok(out)
}

/// Reading back written tokens gives the same tokens.
pub proof fn law_tokens_roundtrip(tokens: Seq<u16>)
    ensures
        le_words(le_bytes(tokens)) == tokens,
{
    let b = le_bytes(tokens);
    assert forall|i: int| 0 <= i < tokens.len() implies #[trigger] le_words(b)[i] == tokens[i] by {
        assert((2 * i) % 2 == 0);
        assert((2 * i + 1) % 2 == 1);
        assert((2 * i) / 2 == i);
        assert((2 * i + 1) / 2 == i);
        let t = tokens[i];
        assert(t % 256 + 256 * (t / 256) == t);
    }
    assert(le_words(b) =~= tokens);
}

/// Writing back read tokens gives the same bytes, for even lengths.
pub proof fn law_bytes_roundtrip(bytes: Seq<u8>)
    requires
        bytes.len() % 2 == 0,
    ensures
        le_bytes(le_words(bytes)) == bytes,
{
    let w = le_words(bytes);
    assert forall|j: int| 0 <= j < bytes.len() implies #[trigger] le_bytes(w)[j] == bytes[j] by {
        let i = j / 2;
        let word = bytes[2 * i] + 256 * bytes[2 * i + 1];
        assert(w[i] == word);
        if j % 2 == 0 {
            assert(j == 2 * i);
        } else {
            assert(j == 2 * i + 1);
        }
    }
    assert(le_bytes(w) =~= bytes);
}

} // verus!
