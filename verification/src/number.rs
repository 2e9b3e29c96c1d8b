//! Reading a whole number from text the way `str::parse::<i64>` does.
use vstd::prelude::*;

verus! {

/// Why a text is not a number; these are the kinds of std's `ParseIntError`
/// that parsing an `i64` can give.
#[derive(Clone, Copy, Debug, PartialEq, Eq, Structural)]
pub enum NumberError {
    /// The text is empty.
    Empty,
    /// The text holds a character that is not a digit where a digit must
    /// stand.
    InvalidDigit,
    /// The number is larger than `i64::MAX`.
    PosOverflow,
    /// The number is smaller than `i64::MIN`.
    NegOverflow,
}

impl NumberError {
    /// The message that std's `ParseIntError` shows for this kind.
    pub open spec fn spec_message(self) -> Seq<char> {
        match self {
            NumberError::Empty => "cannot parse integer from empty string"@,
            NumberError::InvalidDigit => "invalid digit found in string"@,
            NumberError::PosOverflow => "number too large to fit in target type"@,
            NumberError::NegOverflow => "number too small to fit in target type"@,
        }
    }

    /// The message shown for this error.
    pub fn message(&self) -> (r: String)
        ensures
            r@ == self.spec_message(),
    {
        match self {
            NumberError::Empty => String::from_str("cannot parse integer from empty string"),
            NumberError::InvalidDigit => String::from_str("invalid digit found in string"),
            NumberError::PosOverflow => String::from_str("number too large to fit in target type"),
            NumberError::NegOverflow => String::from_str("number too small to fit in target type"),
        }
    }
}

/// An ASCII decimal digit.
pub open spec fn is_digit(c: char) -> bool {
    '0' <= c && c <= '9'
}

/// The value of a decimal digit.
pub open spec fn digit_value(c: char) -> int {
    (c as int) - ('0' as int)
}

/// The largest magnitude that a number of the given sign may have.
pub open spec fn magnitude_limit(negative: bool) -> int {
    if negative {
        0x8000_0000_0000_0000
    } else {
        0x7fff_ffff_ffff_ffff
    }
}

/// Reads the digits `d` from left to right, as std does: the first
/// character that is not a digit stops it with `InvalidDigit`, and the first
/// digit that takes the magnitude past the limit stops it with an overflow.
/// Otherwise it gives the magnitude.
pub open spec fn scan_digits(d: Seq<char>, negative: bool) -> Result<int, NumberError>
    decreases d.len(),
{
    if d.len() == 0 {
        Ok(0)
    } else {
        match scan_digits(d.drop_last(), negative) {
            Err(e) => Err(e),
            Ok(m) => if !is_digit(d.last()) {
                Err(NumberError::InvalidDigit)
            } else if m * 10 + digit_value(d.last()) > magnitude_limit(negative) {
                Err(
                    if negative {
                        NumberError::NegOverflow
                    } else {
                        NumberError::PosOverflow
                    },
                )
            } else {
                Ok(m * 10 + digit_value(d.last()))
            },
        }
    }
}

/// A magnitude that scanning gives lies within the limit.
pub proof fn lemma_scan_bounds(d: Seq<char>, negative: bool)
    ensures
        scan_digits(d, negative) matches Ok(m) ==> 0 <= m <= magnitude_limit(negative),
    decreases d.len(),
{
    if d.len() > 0 {
        lemma_scan_bounds(d.drop_last(), negative);
    }
}

/// Whether the text starts with a sign.
pub open spec fn has_sign(s: Seq<char>) -> bool {
    s.len() > 0 && (s[0] == '+' || s[0] == '-')
}

/// What `str::parse::<i64>` gives for the text `s`: an optional `+` or `-`,
/// then one or more decimal digits, with a value that fits in an `i64`.
pub open spec fn spec_parse_i64(s: Seq<char>) -> Result<i64, NumberError> {
    if s.len() == 0 {
        Err(NumberError::Empty)
    } else if has_sign(s) && s.len() == 1 {
        Err(NumberError::InvalidDigit)
    } else {
        let negative = s[0] == '-';
        let d = if has_sign(s) {
            s.drop_first()
        } else {
            s
        };
        match scan_digits(d, negative) {
            Ok(m) => Ok(
                if negative {
                    (-m) as i64
                } else {
                    m as i64
                },
            ),
            Err(e) => Err(e),
        }
    }
}

/// Parses a whole number (`str::parse::<i64>`).
pub fn parse_i64(s: &str) -> (r: Result<i64, NumberError>)
    ensures
        r == spec_parse_i64(s@),
{
    let v = crate::text::chars_of(s);
    let n = v.len();
    if n == 0 {
        return Err(NumberError::Empty);
    }
    let signed = v[0] == '+' || v[0] == '-';
    if signed && n == 1 {
        return Err(NumberError::InvalidDigit);
    }
    let negative = v[0] == '-';
    let start: usize = if signed { 1 } else { 0 };
    let limit: i128 = if negative { 0x8000_0000_0000_0000 } else { 0x7fff_ffff_ffff_ffff };
    let ghost d = if signed { s@.drop_first() } else { s@ };
    let mut mag: i128 = 0;
    let mut i: usize = start;
    while i < n
        invariant
            v@ == s@,
            n == v@.len(),
            n > 0,
            signed == has_sign(s@),
            !(signed && n == 1),
            negative == (s@[0] == '-'),
            d == (if has_sign(s@) { s@.drop_first() } else { s@ }),
            start <= i <= n,
            start == (if signed { 1int } else { 0int }),
            d == v@.subrange(start as int, n as int),
            limit == magnitude_limit(negative),
            scan_digits(d.take(i - start), negative) == Ok::<int, NumberError>(mag as int),
            0 <= mag <= limit,
        decreases n - i,
    {
        let c = v[i];
        proof {
            assert(d.take(i - start + 1).drop_last() =~= d.take(i - start));
            assert(d.take(i - start + 1).last() == c);
        }
        if !('0' <= c && c <= '9') {
            proof {
                lemma_scan_prefix_error(d, (i - start + 1) as int, negative);
            }
            return Err(NumberError::InvalidDigit);
        }
        let next: i128 = mag * 10 + ((c as u32) - ('0' as u32)) as i128;
        if next > limit {
            proof {
                lemma_scan_prefix_error(d, (i - start + 1) as int, negative);
            }
            return Err(if negative { NumberError::NegOverflow } else { NumberError::PosOverflow });
        }
        mag = next;
        i = i + 1;
    }
    proof {
        assert(d.take(n - start) =~= d);
    }
    if negative {
        if mag == 0x8000_0000_0000_0000 {
            Ok(i64::MIN)
        } else {
            Ok(-(mag as i64))
        }
    } else {
        Ok(mag as i64)
    }
}

/// Once a prefix of the digits fails, the whole fails the same way.
pub proof fn lemma_scan_prefix_error(d: Seq<char>, k: int, negative: bool)
    requires
        0 <= k <= d.len(),
        scan_digits(d.take(k), negative) is Err,
    ensures
        scan_digits(d, negative) == scan_digits(d.take(k), negative),
    decreases d.len() - k,
{
    if k == d.len() {
        assert(d.take(k) =~= d);
    } else {
        let e = d.take(k + 1);
        assert(e.drop_last() =~= d.take(k));
        lemma_scan_prefix_error(d, k + 1, negative);
    }
}

/// A single digit reads as its value.
pub proof fn lemma_parse_one_digit(c: char)
    requires
        '0' <= c <= '9',
    ensures
        spec_parse_i64(seq![c]) == Ok::<i64, NumberError>(((c as int) - ('0' as int)) as i64),
{
    let s = seq![c];
    assert(s.drop_last() =~= Seq::<char>::empty());
    assert(scan_digits(s.drop_last(), false) == Ok::<int, NumberError>(0));
    assert(s.last() == c);
    assert(s[0] == c);
    assert(scan_digits(s, false) == Ok::<int, NumberError>((c as int) - ('0' as int)));
}

/// Writing one more digit after a number that is not negative multiplies it
/// by ten and adds the digit, as long as the result fits; after a negative
/// number it multiplies by ten and subtracts the digit.
pub proof fn lemma_parse_append_digit(s: Seq<char>, c: char, v: i64)
    requires
        spec_parse_i64(s) == Ok::<i64, NumberError>(v),
        '0' <= c <= '9',
        s[0] != '-' ==> v * 10 + ((c as int) - ('0' as int)) <= i64::MAX,
        s[0] == '-' ==> v * 10 - ((c as int) - ('0' as int)) >= i64::MIN,
    ensures
        s[0] != '-' ==> spec_parse_i64(s.push(c)) == Ok::<i64, NumberError>(
            (v * 10 + ((c as int) - ('0' as int))) as i64,
        ),
        s[0] == '-' ==> spec_parse_i64(s.push(c)) == Ok::<i64, NumberError>(
            (v * 10 - ((c as int) - ('0' as int))) as i64,
        ),
{
    let t = s.push(c);
    let negative = s[0] == '-';
    assert(t[0] == s[0]);
    let d = if has_sign(s) { s.drop_first() } else { s };
    let e = if has_sign(t) { t.drop_first() } else { t };
    assert(e =~= d.push(c));
    assert(e.drop_last() =~= d);
    assert(e.last() == c);
    lemma_scan_bounds(d, negative);
    assert(scan_digits(d, negative) is Ok);
    if let Ok(m) = scan_digits(d, negative) {
        if negative {
            assert(v == -m);
        } else {
            assert(v == m);
        }
    }
}

/// Scanning stops with an error at a character that is not a digit.
proof fn lemma_scan_non_digit(d: Seq<char>, k: int, negative: bool)
    requires
        0 <= k < d.len(),
        !is_digit(d[k]),
    ensures
        scan_digits(d, negative) is Err,
{
    let p = d.take(k + 1);
    assert(p.drop_last() =~= d.take(k));
    assert(p.last() == d[k]);
    assert(scan_digits(p, negative) is Err);
    lemma_scan_prefix_error(d, k + 1, negative);
}

/// A text with a character that is neither a digit nor a leading sign is
/// not a number.
pub proof fn lemma_parse_rejects_non_digit(s: Seq<char>, k: int)
    requires
        0 <= k < s.len(),
        !('0' <= s[k] <= '9'),
        !(k == 0 && (s[0] == '+' || s[0] == '-')),
    ensures
        spec_parse_i64(s) is Err,
{
    if !(has_sign(s) && s.len() == 1) {
        let negative = s[0] == '-';
        if has_sign(s) {
            let d = s.drop_first();
            assert(d[k - 1] == s[k]);
            lemma_scan_non_digit(d, k - 1, negative);
        } else {
            lemma_scan_non_digit(s, k, negative);
        }
    }
}

} // verus!
