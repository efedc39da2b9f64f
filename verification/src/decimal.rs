//! Decimal text: the form in which expiry instants arrive and times to live leave.

use vstd::prelude::*;

verus! {

/// True when `b` is one of the ASCII digits `0` to `9`.
pub open spec fn is_digit(b: u8) -> bool {
    0x30 <= b <= 0x39
}

/// True when every byte of `s` is an ASCII digit.
pub open spec fn all_digits(s: Seq<u8>) -> bool {
    forall|i: int| 0 <= i < s.len() ==> is_digit(#[trigger] s[i])
}

/// The number that the digit string `s` writes, most significant digit first.
pub open spec fn digits_value(s: Seq<u8>) -> nat
    decreases s.len(),
{
    if s.len() == 0 {
        0
    } else {
        digits_value(s.drop_last()) * 10 + (s.last() - 0x30) as nat
    }
}

/// True when `s` starts with a `+` or a `-`.
pub open spec fn has_sign(s: Seq<u8>) -> bool {
    s.len() > 0 && (s[0] == 0x2b || s[0] == 0x2d)
}

/// The digits of `s`: what follows its sign, or all of it where it has none.
pub open spec fn digits_of(s: Seq<u8>) -> Seq<u8> {
    if has_sign(s) {
        s.skip(1)
    } else {
        s
    }
}

/// The number that `s` writes, when its digits are digits: the value of the
/// digits, negated behind a `-`.
pub open spec fn signed_value(s: Seq<u8>) -> int {
    if s.len() > 0 && s[0] == 0x2d {
        -(digits_value(digits_of(s)) as int)
    } else {
        digits_value(digits_of(s)) as int
    }
}

/// What `s` means as a signed 64-bit decimal: an optional sign, then at least
/// one digit and nothing else, naming a number that an `i64` holds. Leading
/// zeros are accepted. Every other byte string means nothing.
pub open spec fn decimal_i64(s: Seq<u8>) -> Option<int> {
    if digits_of(s).len() > 0 && all_digits(digits_of(s)) && i64::MIN <= signed_value(s)
        <= i64::MAX {
        Some(signed_value(s))
    } else {
        None
    }
}

/// The shortest decimal text of `n`: no sign, no leading zero, `0` for zero.
pub open spec fn decimal_digits(n: nat) -> Seq<u8>
    decreases n,
{
    if n < 10 {
        seq![(0x30 + n) as u8]
    } else {
        decimal_digits(n / 10).push((0x30 + n % 10) as u8)
    }
}

/// Appending a digit never lowers the value: a prefix of a digit string is
/// worth at most the whole.
pub proof fn lemma_prefix_value_bounded(s: Seq<u8>, k: int)
    requires
        0 <= k <= s.len(),
        all_digits(s),
    ensures
        digits_value(s.take(k)) <= digits_value(s),
    decreases s.len() - k,
{
    if k == s.len() {
        assert(s.take(k) =~= s);
    } else {
        lemma_prefix_value_bounded(s, k + 1);
        assert(s.take(k + 1).drop_last() =~= s.take(k));
        assert(is_digit(s[k]));
        assert(s.take(k + 1).last() == s[k]);
    }
}

/// The decimal text of a number is made of digits and writes that number.
pub proof fn lemma_digits_write_their_number(n: nat)
    ensures
        decimal_digits(n).len() > 0,
        all_digits(decimal_digits(n)),
        digits_value(decimal_digits(n)) == n,
        !has_sign(decimal_digits(n)),
    decreases n,
{
    if n < 10 {
        let s = decimal_digits(n);
        assert(s.drop_last() =~= Seq::<u8>::empty());
        assert(digits_value(s.drop_last()) == 0);
    } else {
        lemma_digits_write_their_number(n / 10);
        let earlier = decimal_digits(n / 10);
        let s = decimal_digits(n);
        assert(s.drop_last() =~= earlier);
        assert(s[0] == earlier[0]);
        assert(is_digit(earlier[0]));
    }
}

/// Round trip: the text that `format_u64` writes for a number that an `i64`
/// holds reads back, through `parse_i64`, as that number.
pub proof fn lemma_decimal_round_trip(n: u64)
    requires
        n <= i64::MAX,
    ensures
        decimal_i64(decimal_digits(n as nat)) == Some(n as int),
{
    lemma_digits_write_their_number(n as nat);
}

/// Reads a signed 64-bit decimal from `s`.
pub fn parse_i64(s: &[u8]) -> (r: Option<i64>)
    ensures
        match r {
            Some(v) => decimal_i64(s@) == Some(v as int),
            None => decimal_i64(s@) is None,
        },
{
    let n: usize = s.len();
    if n == 0 {
        return None;
    }
    let negative: bool = s[0] == 0x2d;
    let start: usize = if s[0] == 0x2b || s[0] == 0x2d {
        1
    } else {
        0
    };
    if start == n {
        return None;
    }
    let ghost digits = digits_of(s@);
    assert(digits =~= s@.subrange(start as int, n as int));
    // The magnitude read so far; 2^63 is the largest that any sign allows.
    let limit: u64 = 0x8000_0000_0000_0000;
    let mut acc: u64 = 0;
    let mut i: usize = start;
    while i < n
        invariant
            start <= i <= n,
            n == s@.len(),
            digits == s@.subrange(start as int, n as int),
            digits == digits_of(s@),
            all_digits(digits.take(i - start)),
            acc == digits_value(digits.take(i - start)),
            acc <= limit,
            limit == 0x8000_0000_0000_0000,
        decreases n - i,
    {
        let b: u8 = s[i];
        let ghost k = i - start;
        proof {
            assert(digits.take(k + 1).drop_last() =~= digits.take(k));
            assert(digits.take(k + 1).last() == b);
        }
        if b < 0x30 || b > 0x39 {
            assert(!is_digit(digits[k]));
            return None;
        }
        let d: u64 = (b - 0x30) as u64;
        assert(all_digits(digits.take(k + 1))) by {
            assert forall|j: int| 0 <= j < k + 1 implies is_digit(
                #[trigger] digits.take(k + 1)[j],
            ) by {
                if j < k {
                    assert(digits.take(k)[j] == digits.take(k + 1)[j]);
                }
            }
        }
        if acc > (limit - d) / 10 {
            proof {
                // The prefix alone is past every i64, and so is the whole.
                assert(acc * 10 + d > limit);
                if all_digits(digits) {
                    lemma_prefix_value_bounded(digits, k + 1);
                }
            }
            return None;
        }
        acc = acc * 10 + d;
        i = i + 1;
    }
    assert(digits.take(n - start) =~= digits);
    if negative {
        if acc == limit {
            Some(i64::MIN)
        } else {
            Some(-(acc as i64))
        }
    } else {
        if acc == limit {
            None
        } else {
            Some(acc as i64)
        }
    }
}

/// Writes `n` in decimal.
pub fn format_u64(n: u64) -> (r: Vec<u8>)
    ensures
        r@ == decimal_digits(n as nat),
    decreases n,
{
    if n < 10 {
        let mut out: Vec<u8> = Vec::new();
        out.push(0x30 + n as u8);
        assert(out@ =~= decimal_digits(n as nat));
        out
    } else {
        let mut out: Vec<u8> = format_u64(n / 10);
        out.push(0x30 + (n % 10) as u8);
        out
    }
}

} // verus!
