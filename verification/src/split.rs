use vstd::prelude::*;
use vstd::string::StrSliceExecFns;

verus! {

/// Smallest corpus, in characters, that can be split.
pub const MIN_CORPUS_CHARS: usize = 100;

/// Smallest part, in characters, on either side of the split.
pub const MIN_PART_CHARS: usize = 2;

/// Why a corpus could not be split into training and validation text.
#[derive(Debug, Clone, Copy, PartialEq, Eq)]
pub enum SplitError {
    /// The corpus has fewer than 100 characters (it has this many).
    CorpusTooSmall(usize),
    /// One part would have fewer than 2 characters.
    InvalidSplitSizes { train: usize, val: usize },
}

/// Number of training characters when `val` characters are held out of
/// `total` (zero when `val` exceeds `total`).
pub open spec fn train_chars_of(total: nat, val: nat) -> nat {
    if val <= total {
        (total - val) as nat
    } else {
        0
    }
}

/// Splits `text` into a training prefix and a validation suffix of
/// `val_chars` characters.
pub fn split_train_val_chars(text: &str, val_chars: usize) -> (r: Result<(&str, &str), SplitError>)
    ensures
        text@.len() < MIN_CORPUS_CHARS <==> r == Err::<(&str, &str), SplitError>(
            SplitError::CorpusTooSmall(text@.len() as usize),
        ),
        ({
            let train = train_chars_of(text@.len(), val_chars as nat);
            text@.len() >= MIN_CORPUS_CHARS && (train < MIN_PART_CHARS || val_chars < MIN_PART_CHARS)
                <==> r == Err::<(&str, &str), SplitError>(
                SplitError::InvalidSplitSizes { train: train as usize, val: val_chars },
            )
        }),
        r is Ok <==> text@.len() >= MIN_CORPUS_CHARS && train_chars_of(text@.len(), val_chars as nat)
            >= MIN_PART_CHARS && val_chars >= MIN_PART_CHARS,
        r matches Ok((a, b)) ==> {
            &&& a@ == text@.take(text@.len() - val_chars)
            &&& b@ == text@.skip(text@.len() - val_chars)
            &&& b@.len() == val_chars
            &&& a@ + b@ == text@
        },
{
    let total = text.unicode_len();
    if total < MIN_CORPUS_CHARS {
        return Err(SplitError::CorpusTooSmall(total));
    }
    let train = total.saturating_sub(val_chars);
    if train < MIN_PART_CHARS || val_chars < MIN_PART_CHARS {
        return Err(SplitError::InvalidSplitSizes { train, val: val_chars });
    }
    let a = text.substring_char(0, train);
    let b = text.substring_char(train, total);
    assert(text@.subrange(0, train as int) =~= text@.take(train as int));
    assert(text@.subrange(train as int, total as int) =~= text@.skip(train as int));
    assert(a@ + b@ =~= text@);
    Ok((a, b))
}

} // verus!
