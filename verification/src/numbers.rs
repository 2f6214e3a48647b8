use vstd::prelude::*;

verus! {

/// Why text is not an unsigned integer of the wanted width (the kinds that
/// std's `from_str` reports for unsigned types).
#[derive(Debug, Clone, Copy, PartialEq, Eq)]
pub enum IntErrorKind {
    /// The text is empty.
    Empty,
    /// The text holds a character that is not a decimal digit (after an
    /// optional leading `+`), or is a lone `+`.
    InvalidDigit,
    /// The value exceeds the largest value of the wanted width.
    PosOverflow,
}

/// `c` is an ASCII decimal digit.
pub open spec fn is_digit(c: char) -> bool {
    '0' <= c <= '9'
}

/// The value of the ASCII decimal digit `c`.
pub open spec fn digit_value(c: char) -> nat {
    (c as u32 - '0' as u32) as nat
}

/// The ASCII decimal digit of value `d` (for `d < 10`).
pub open spec fn digit_char(d: nat) -> char {
    if d == 0 {
        '0'
    } else if d == 1 {
        '1'
    } else if d == 2 {
        '2'
    } else if d == 3 {
        '3'
    } else if d == 4 {
        '4'
    } else if d == 5 {
        '5'
    } else if d == 6 {
        '6'
    } else if d == 7 {
        '7'
    } else if d == 8 {
        '8'
    } else {
        '9'
    }
}

/// Decimal notation of `n`: no sign, no leading zeros, "0" for zero.
pub open spec fn decimal(n: nat) -> Seq<char>
    decreases n,
{
    if n < 10 {
        seq![digit_char(n)]
    } else {
        decimal(n / 10).push(digit_char(n % 10))
    }
}

/// Reads the digits `s` left to right onto `acc`, failing at the first
/// non-digit, or as soon as the value would exceed `max`.
pub open spec fn scan_digits(s: Seq<char>, acc: nat, max: nat) -> Result<nat, IntErrorKind>
    decreases s.len(),
{
    if s.len() == 0 {
        Ok(acc)
    } else if !is_digit(s[0]) {
        Err(IntErrorKind::InvalidDigit)
    } else if acc * 10 + digit_value(s[0]) > max {
        Err(IntErrorKind::PosOverflow)
    } else {
        scan_digits(s.drop_first(), acc * 10 + digit_value(s[0]), max)
    }
}

/// The value of `s` read as an unsigned decimal integer no larger than
/// `max`: an optional `+` followed by one or more digits.
pub open spec fn parse_unsigned_spec(s: Seq<char>, max: nat) -> Result<nat, IntErrorKind> {
    if s.len() == 0 {
        Err(IntErrorKind::Empty)
    } else if s[0] == '+' {
        if s.len() == 1 {
            Err(IntErrorKind::InvalidDigit)
        } else {
            scan_digits(s.drop_first(), 0, max)
        }
    } else {
        scan_digits(s, 0, max)
    }
}

/// The ASCII digit of value `d`.
pub fn digit_to_char(d: u64) -> (c: char)
    requires
        d < 10,
    ensures
        c == digit_char(d as nat),
        is_digit(c),
        digit_value(c) == d,
{
    if d == 0 {
        '0'
    } else if d == 1 {
        '1'
    } else if d == 2 {
        '2'
    } else if d == 3 {
        '3'
    } else if d == 4 {
        '4'
    } else if d == 5 {
        '5'
    } else if d == 6 {
        '6'
    } else if d == 7 {
        '7'
    } else if d == 8 {
        '8'
    } else {
        '9'
    }
}

/// Appends the decimal notation of `n` to `out`.
pub fn push_decimal(out: &mut Vec<char>, n: u64)
    ensures
        final(out)@ == old(out)@ + decimal(n as nat),
    decreases n,
{
    if n < 10 {
        out.push(digit_to_char(n));
        assert(decimal(n as nat) =~= seq![digit_char(n as nat)]);
    } else {
        push_decimal(out, n / 10);
        out.push(digit_to_char(n % 10));
        assert(decimal(n as nat) == decimal((n / 10) as nat).push(digit_char((n % 10) as nat)));
        assert(final(out)@ =~= old(out)@ + decimal(n as nat));
    }
}

/// Decimal notation of `n`.
pub fn format_decimal(n: u64) -> (r: Vec<char>)
    ensures
        r@ == decimal(n as nat),
{
    let mut out: Vec<char> = Vec::new();
    push_decimal(&mut out, n);
    assert(out@ =~= decimal(n as nat));
    out
}

/// Reads `s` as an unsigned decimal integer no larger than `max`, with the
/// rules of std's `from_str` for unsigned integer types.
pub fn parse_unsigned(s: &[char], max: u64) -> (r: Result<u64, IntErrorKind>)
    ensures
        r matches Ok(n) ==> n <= max,
        r matches Ok(n) ==> parse_unsigned_spec(s@, max as nat) == Ok::<nat, IntErrorKind>(
            n as nat,
        ),
        r matches Err(e) ==> parse_unsigned_spec(s@, max as nat) == Err::<nat, IntErrorKind>(e),
{
    if s.len() == 0 {
        return Err(IntErrorKind::Empty);
    }
    let mut i: usize = 0;
    if s[0] == '+' {
        if s.len() == 1 {
            return Err(IntErrorKind::InvalidDigit);
        }
        i = 1;
    }
    let ghost start = i as int;
    let mut acc: u64 = 0;
    assert(s@.subrange(start, s@.len() as int) =~= if start == 1 {
        s@.drop_first()
    } else {
        s@
    });
    while i < s.len()
        invariant
            start <= i <= s.len(),
            acc <= max,
            parse_unsigned_spec(s@, max as nat) == scan_digits(
                s@.subrange(start, s@.len() as int),
                0,
                max as nat,
            ),
            scan_digits(s@.subrange(i as int, s@.len() as int), acc as nat, max as nat)
                == scan_digits(s@.subrange(start, s@.len() as int), 0, max as nat),
        decreases s.len() - i,
    {
        let c = s[i];
        let ghost rest = s@.subrange(i as int, s@.len() as int);
        assert(rest[0] == c);
        assert(rest.drop_first() =~= s@.subrange(i + 1, s@.len() as int));
        if !('0' <= c && c <= '9') {
            return Err(IntErrorKind::InvalidDigit);
        }
        let d = (c as u32 - '0' as u32) as u64;
        let next: u128 = (acc as u128) * 10 + (d as u128);
        if next > max as u128 {
            return Err(IntErrorKind::PosOverflow);
        }
        acc = next as u64;
        i = i + 1;
    }
    let ghost empty = s@.subrange(i as int, s@.len() as int);
    assert(empty.len() == 0);
    Ok(acc)
}

/// Scanning a sequence extended by one character continues from the value
/// of the sequence.
pub proof fn lemma_scan_push(s: Seq<char>, c: char, acc: nat, max: nat)
    ensures
        scan_digits(s.push(c), acc, max) == match scan_digits(s, acc, max) {
            Ok(v) => scan_digits(seq![c], v, max),
            Err(e) => Err(e),
        },
    decreases s.len(),
{
    if s.len() == 0 {
        assert(s.push(c) =~= seq![c]);
    } else {
        assert(s.push(c).drop_first() =~= s.drop_first().push(c));
        assert(s.push(c)[0] == s[0]);
        if is_digit(s[0]) && acc * 10 + digit_value(s[0]) <= max {
            lemma_scan_push(s.drop_first(), c, acc * 10 + digit_value(s[0]), max);
        }
    }
}

/// Decimal notation holds only digits and is never empty.
pub proof fn lemma_decimal_digits(n: nat)
    ensures
        decimal(n).len() > 0,
        forall|i: int| 0 <= i < decimal(n).len() ==> is_digit(#[trigger] decimal(n)[i]),
    decreases n,
{
    if n >= 10 {
        lemma_decimal_digits(n / 10);
    }
}

/// Decimal notation holds no character other than digits; in particular no
/// tab, line feed, carriage return or `=`.
pub proof fn lemma_decimal_only_digits(n: nat)
    ensures
        decimal(n).len() > 0,
        forall|c: char| decimal(n).contains(c) ==> is_digit(c),
        !decimal(n).contains('\t'),
        !decimal(n).contains('\n'),
        !decimal(n).contains('='),
        decimal(n).last() != '\r',
{
    lemma_decimal_digits(n);
    assert forall|c: char| decimal(n).contains(c) implies is_digit(c) by {
        let k = choose|k: int| 0 <= k < decimal(n).len() && decimal(n)[k] == c;
        assert(is_digit(decimal(n)[k]));
    }
    assert(is_digit(decimal(n)[decimal(n).len() - 1]));
}

/// Reading back the decimal notation of `n` gives `n`, whenever `n` fits.
pub proof fn law_decimal_roundtrip(n: nat, max: nat)
    requires
        n <= max,
    ensures
        parse_unsigned_spec(decimal(n), max) == Ok::<nat, IntErrorKind>(n),
    decreases n,
{
    lemma_decimal_digits(n);
    lemma_scan_decimal(n, max);
    assert(is_digit(decimal(n)[0]));
}

proof fn lemma_scan_decimal(n: nat, max: nat)
    requires
        n <= max,
    ensures
        scan_digits(decimal(n), 0, max) == Ok::<nat, IntErrorKind>(n),
    decreases n,
{
    if n < 10 {
        let s = seq![digit_char(n)];
        assert(s.drop_first().len() == 0);
        assert(is_digit(digit_char(n)));
        assert(digit_value(digit_char(n)) == n);
        assert(decimal(n) == s);
        assert(scan_digits(s.drop_first(), n, max) == Ok::<nat, IntErrorKind>(n));
    } else {
        lemma_scan_decimal(n / 10, max);
        lemma_scan_push(decimal(n / 10), digit_char(n % 10), 0, max);
        let c = digit_char(n % 10);
        assert(is_digit(c));
        assert(digit_value(c) == n % 10);
        assert(seq![c].drop_first().len() == 0);
        assert((n / 10) * 10 + n % 10 == n);
        assert(scan_digits(seq![c].drop_first(), n, max) == Ok::<nat, IntErrorKind>(n));
    }
}

} // verus!
