//! Timestamps of the chat platform and of the transcript, as integer
//! nanoseconds since the Unix epoch.

use crate::text::{char_is_ascii_digit, chars_of, is_ascii_digit, subvec};
use vstd::prelude::*;

verus! {

/// The number a decimal digit stands for.
pub open spec fn digit_value(c: char) -> int {
    c as int - '0' as int
}

/// Whether every character of `s` is an ASCII decimal digit.
pub open spec fn all_digits(s: Seq<char>) -> bool {
    forall|i: int| 0 <= i < s.len() ==> is_ascii_digit(#[trigger] s[i])
}

/// The number that the digits `s` write in base ten.
pub open spec fn decimal_value(s: Seq<char>) -> int
    decreases s.len(),
{
    if s.len() == 0 {
        0
    } else {
        decimal_value(s.drop_last()) * 10 + digit_value(s.last())
    }
}

/// The integer that `s` writes: an optional `+` or `-`, then one or more
/// decimal digits and nothing else.
pub open spec fn signed_decimal(s: Seq<char>) -> Option<int> {
    if s.len() == 0 {
        None
    } else {
        let signed = s[0] == '-' || s[0] == '+';
        let digits = if signed {
            s.skip(1)
        } else {
            s
        };
        if digits.len() == 0 || !all_digits(digits) {
            None
        } else if s[0] == '-' {
            Some(-decimal_value(digits))
        } else {
            Some(decimal_value(digits))
        }
    }
}

/// The integer that `s` writes, if it lies between `lo` and `hi`.
pub open spec fn decimal_in_range(s: Seq<char>, lo: int, hi: int) -> Option<int> {
    match signed_decimal(s) {
        Some(v) => if lo <= v <= hi {
            Some(v)
        } else {
            None
        },
        None => None,
    }
}

/// Ten to the power `n`.
pub open spec fn pow10(n: nat) -> int
    decreases n,
{
    if n == 0 {
        1
    } else {
        10 * pow10((n - 1) as nat)
    }
}

/// The offset of the first `c` in `s`, or the length of `s` if there is none.
pub open spec fn first_index(s: Seq<char>, c: char) -> int
    decreases s.len(),
{
    if s.len() == 0 || s[0] == c {
        0
    } else {
        1 + first_index(s.skip(1), c)
    }
}

/// `s` split at its first `c`: what stands before it and what stands after.
pub open spec fn split_once(s: Seq<char>, c: char) -> Option<(Seq<char>, Seq<char>)> {
    let k = first_index(s, c);
    if k < s.len() {
        Some((s.take(k), s.skip(k + 1)))
    } else {
        None
    }
}

/// `s` split at its first two `c`: the third part is all that follows the
/// second separator.
pub open spec fn split_three(s: Seq<char>, c: char) -> Option<(Seq<char>, Seq<char>, Seq<char>)> {
    match split_once(s, c) {
        None => None,
        Some((first, rest)) => match split_once(rest, c) {
            None => None,
            Some((second, third)) => Some((first, second, third)),
        },
    }
}

/// A fraction of a second in nanoseconds: the first nine characters of
/// `frac` are read as digits after the decimal point, what follows them is
/// ignored.
pub open spec fn fractional_nanos(frac: Seq<char>) -> Option<int> {
    let digits = if frac.len() > 9 {
        frac.take(9)
    } else {
        frac
    };
    if all_digits(digits) {
        Some(decimal_value(digits) * pow10((9 - digits.len()) as nat))
    } else {
        None
    }
}

/// Quotient rounded toward zero, for a positive divisor.
pub open spec fn div_toward_zero(a: int, b: int) -> int {
    if a >= 0 {
        a / b
    } else {
        -((-a) / b)
    }
}

/// Days from 1970-01-01 to the given date of the proleptic Gregorian
/// calendar. The year is counted from March, so that the leap day is its
/// last day; the leap years are those of the Gregorian rule.
pub open spec fn civil_days(year: int, month: int, day: int) -> int {
    let y = if month <= 2 {
        year - 1
    } else {
        year
    };
    let m = if month > 2 {
        month - 3
    } else {
        month + 9
    };
    365 * y + y / 4 - y / 100 + y / 400 + div_toward_zero(153 * m + 2, 5) + day - 1 - 719468
}

/// Nanoseconds since the epoch of a chat timestamp `seconds.fraction`, if
/// it is one and the result fits in 128 bits.
pub open spec fn slack_nanos(ts: Seq<char>) -> Option<int> {
    match split_once(ts, '.') {
        None => None,
        Some((secs, frac)) => match (
            decimal_in_range(secs, i128::MIN as int, i128::MAX as int),
            fractional_nanos(frac),
        ) {
            (Some(s), Some(n)) => {
                let total = s * 1_000_000_000 + n;
                if i128::MIN <= total <= i128::MAX {
                    Some(total)
                } else {
                    None
                }
            },
            _ => None,
        },
    }
}

/// The three numbers of `s`, separated by `sep`, each within 32 bits.
pub open spec fn three_numbers(s: Seq<char>, sep: char) -> Option<(int, int, int)> {
    match split_three(s, sep) {
        None => None,
        Some((a, b, c)) => match (
            decimal_in_range(a, i32::MIN as int, i32::MAX as int),
            decimal_in_range(b, i32::MIN as int, i32::MAX as int),
            decimal_in_range(c, i32::MIN as int, i32::MAX as int),
        ) {
            (Some(x), Some(y), Some(z)) => Some((x, y, z)),
            _ => None,
        },
    }
}

/// Nanoseconds since the epoch of a transcript timestamp
/// `year-month-dayThour:minute:second[.fraction]Z`, if it is one.
pub open spec fn iso_nanos(ts: Seq<char>) -> Option<int> {
    if ts.len() == 0 || ts.last() != 'Z' {
        None
    } else {
        match split_once(ts.drop_last(), 'T') {
            None => None,
            Some((date, time)) => {
                let (clock, frac) = match split_once(time, '.') {
                    Some(parts) => parts,
                    None => (time, Seq::empty()),
                };
                let nanos = if frac.len() == 0 {
                    Some(0int)
                } else {
                    fractional_nanos(frac)
                };
                match (three_numbers(date, '-'), three_numbers(clock, ':'), nanos) {
                    (Some((year, month, day)), Some((hour, minute, second)), Some(n)) => Some(
                        (civil_days(year, month, day) * 86_400 + hour * 3_600 + minute * 60
                            + second) * 1_000_000_000 + n,
                    ),
                    _ => None,
                }
            },
        }
    }
}

proof fn lemma_decimal_nonnegative(s: Seq<char>)
    requires
        all_digits(s),
    ensures
        0 <= decimal_value(s),
    decreases s.len(),
{
    if s.len() > 0 {
        lemma_decimal_nonnegative(s.drop_last());
    }
}

proof fn lemma_decimal_prefix(s: Seq<char>, k: int)
    requires
        all_digits(s),
        0 <= k <= s.len(),
    ensures
        0 <= decimal_value(s.take(k)) <= decimal_value(s),
    decreases s.len() - k,
{
    lemma_decimal_nonnegative(s.take(k));
    if k == s.len() {
        assert(s.take(k) == s);
    } else {
        lemma_decimal_prefix(s, k + 1);
        assert(s.take(k + 1).drop_last() == s.take(k));
    }
}

proof fn lemma_decimal_bound(s: Seq<char>)
    requires
        all_digits(s),
    ensures
        0 <= decimal_value(s) < pow10(s.len()),
    decreases s.len(),
{
    if s.len() > 0 {
        lemma_decimal_bound(s.drop_last());
    }
}

/// The offset of the first `c` in `s`, or the length of `s`.
pub fn find_char(s: &Vec<char>, c: char) -> (k: usize)
    ensures
        k == first_index(s@, c),
        k <= s.len(),
        forall|j: int| 0 <= j < k ==> s@[j] != c,
        k < s.len() ==> s@[k as int] == c,
{
    let mut i: usize = 0;
    assert(s@.skip(0) == s@);
    while i < s.len() && s[i] != c
        invariant
            i <= s.len(),
            first_index(s@, c) == i + first_index(s@.skip(i as int), c),
            forall|j: int| 0 <= j < i ==> s@[j] != c,
        decreases s.len() - i,
    {
        assert(s@.skip(i as int).skip(1) == s@.skip(i + 1));
        i += 1;
    }
    i
}

/// `s` split at its first `c`.
pub fn split_once_chars(s: &Vec<char>, c: char) -> (r: Option<(Vec<char>, Vec<char>)>)
    ensures
        match r {
            Some((a, b)) => split_once(s@, c) == Some((a@, b@)),
            None => split_once(s@, c) is None,
        },
{
    let k = find_char(s, c);
    if k < s.len() {
        let a = subvec(s, 0, k);
        let b = subvec(s, k + 1, s.len());
        assert(s@.take(k as int) == s@.subrange(0, k as int));
        assert(s@.skip(k + 1) == s@.subrange(k + 1, s.len() as int));
        Some((a, b))
    } else {
        None
    }
}

/// The integer that `s` writes, if it fits in 128 bits.
pub fn parse_i128(s: &Vec<char>) -> (r: Option<i128>)
    ensures
        match r {
            Some(v) => decimal_in_range(s@, i128::MIN as int, i128::MAX as int) == Some(v as int),
            None => decimal_in_range(s@, i128::MIN as int, i128::MAX as int) is None,
        },
{
    let n = s.len();
    if n == 0 {
        return None;
    }
    let negative = s[0] == '-';
    let start: usize = if s[0] == '-' || s[0] == '+' {
        1
    } else {
        0
    };
    if start == n {
        return None;
    }
    let ghost digits = if start == 1 {
        s@.skip(1)
    } else {
        s@
    };
    let mut acc: i128 = 0;
    let mut i: usize = start;
    assert(digits.take(0) == Seq::<char>::empty());
    while i < n
        invariant
            start <= i <= n,
            n == s.len(),
            n > 0,
            negative == (s@[0] == '-'),
            start == if s@[0] == '-' || s@[0] == '+' {
                1int
            } else {
                0int
            },
            digits == if start == 1 {
                s@.skip(1)
            } else {
                s@
            },
            all_digits(digits.take(i - start)),
            negative ==> acc == -decimal_value(digits.take(i - start)),
            !negative ==> acc == decimal_value(digits.take(i - start)),
        decreases n - i,
    {
        let c = s[i];
        let ghost k = i - start;
        assert(digits[k] == c);
        if !char_is_ascii_digit(c) {
            return None;
        }
        assert(digits.take(k + 1).drop_last() == digits.take(k));
        assert(all_digits(digits.take(k + 1))) by {
            assert forall|j: int| 0 <= j < k + 1 implies is_ascii_digit(
                #[trigger] digits.take(k + 1)[j],
            ) by {
                if j < k {
                    assert(digits.take(k)[j] == digits.take(k + 1)[j]);
                }
            }
        }
        let d: i128 = (c as u32 - '0' as u32) as i128;
        assert(d == digit_value(c));
        proof {
            if all_digits(digits) {
                lemma_decimal_prefix(digits, k + 1);
            }
        }
        let next = match acc.checked_mul(10) {
            Some(tens) => if negative {
                tens.checked_sub(d)
            } else {
                tens.checked_add(d)
            },
            None => None,
        };
        match next {
            Some(v) => {
                acc = v;
            },
            None => {
                return None;
            },
        }
        i += 1;
    }
    assert(digits.take(n - start) == digits);
    Some(acc)
}

/// The integer that `s` writes, if it fits in 32 bits.
pub fn parse_i32(s: &Vec<char>) -> (r: Option<i32>)
    ensures
        match r {
            Some(v) => decimal_in_range(s@, i32::MIN as int, i32::MAX as int) == Some(v as int),
            None => decimal_in_range(s@, i32::MIN as int, i32::MAX as int) is None,
        },
{
    match parse_i128(s) {
        Some(v) => if -2147483648 <= v && v <= 2147483647 {
            Some(v as i32)
        } else {
            None
        },
        None => None,
    }
}

/// A fraction of a second, written as the digits after the decimal point,
/// in nanoseconds. Digits beyond the ninth are not read.
pub fn parse_fractional_nanos(frac: &str) -> (r: Option<i128>)
    ensures
        match r {
            Some(v) => fractional_nanos(frac@) == Some(v as int),
            None => fractional_nanos(frac@) is None,
        },
        r matches Some(v) ==> 0 <= v < 1_000_000_000,
{
    let chars = chars_of(frac);
    fractional_nanos_of(&chars)
}

fn fractional_nanos_of(frac: &Vec<char>) -> (r: Option<i128>)
    ensures
        match r {
            Some(v) => fractional_nanos(frac@) == Some(v as int),
            None => fractional_nanos(frac@) is None,
        },
        r matches Some(v) ==> 0 <= v < 1_000_000_000,
{
    let n: usize = if frac.len() > 9 {
        9
    } else {
        frac.len()
    };
    let ghost digits = frac@.take(n as int);
    assert(frac.len() <= 9 ==> digits == frac@);
    let mut value: i128 = 0;
    let mut i: usize = 0;
    assert(digits.take(0) == Seq::<char>::empty());
    while i < n
        invariant
            i <= n <= 9,
            n <= frac.len(),
            digits == frac@.take(n as int),
            all_digits(digits.take(i as int)),
            value == decimal_value(digits.take(i as int)),
            0 <= value < pow10(i as nat),
        decreases n - i,
    {
        let c = frac[i];
        assert(digits[i as int] == c);
        if !char_is_ascii_digit(c) {
            return None;
        }
        assert(digits.take(i + 1).drop_last() == digits.take(i as int));
        assert(all_digits(digits.take(i + 1))) by {
            assert forall|j: int| 0 <= j < i + 1 implies is_ascii_digit(
                #[trigger] digits.take(i + 1)[j],
            ) by {
                if j < i {
                    assert(digits.take(i as int)[j] == digits.take(i + 1)[j]);
                }
            }
        }
        proof {
            lemma_pow10_bound(i as nat);
            lemma_decimal_bound(digits.take(i + 1));
        }
        let d: i128 = (c as u32 - '0' as u32) as i128;
        value = value * 10 + d;
        i += 1;
    }
    assert(digits.take(n as int) == digits);
    let mut scaled: i128 = value;
    let mut k: usize = n;
    assert(pow10(0) == 1);
    assert(pow10((k - n) as nat) == 1);
    assert(value * pow10((k - n) as nat) == value) by (nonlinear_arith)
        requires
            pow10((k - n) as nat) == 1,
    ;
    while k < 9
        invariant
            n <= k <= 9,
            0 <= value,
            scaled == value * pow10((k - n) as nat),
            0 <= scaled < pow10(k as nat),
            value < pow10(n as nat),
        decreases 9 - k,
    {
        proof {
            lemma_pow10_bound(k as nat);
            assert(value * (10 * pow10((k - n) as nat)) == (value * pow10((k - n) as nat)) * 10)
                by (nonlinear_arith);
        }
        scaled = scaled * 10;
        k += 1;
    }
    proof {
        lemma_pow10_bound(9);
    }
    Some(scaled)
}

proof fn lemma_pow10_bound(n: nat)
    requires
        n <= 9,
    ensures
        0 < pow10(n) <= 1_000_000_000,
        pow10(9) == 1_000_000_000,
    decreases n,
{
    reveal_with_fuel(pow10, 10);
}

/// Days from 1970-01-01 to a date of the proleptic Gregorian calendar.
pub fn days_from_civil(year: i32, month: i32, day: i32) -> (days: i64)
    ensures
        days == civil_days(year as int, month as int, day as int),
{
    let y: i64 = if month <= 2 {
        year as i64 - 1
    } else {
        year as i64
    };
    let m: i64 = if month > 2 {
        month as i64 - 3
    } else {
        month as i64 + 9
    };
    let era: i64 = (if y >= 0 {
        y
    } else {
        y - 399
    }) / 400;
    let yoe: i64 = y - era * 400;
    proof {
        lemma_era(y as int);
        assert(era == y as int / 400);
        assert(yoe == y as int % 400);
    }
    let doy: i64 = (153 * m + 2) / 5 + day as i64 - 1;
    assert(doy == div_toward_zero(153 * m + 2, 5) + day - 1);
    let doe: i64 = yoe * 365 + yoe / 4 - yoe / 100 + doy;
    era * 146097 + doe - 719468
}

/// A year splits into eras of 400 years, of which each holds 97 leap years.
proof fn lemma_era(y: int)
    ensures
        0 <= y % 400 < 400,
        y == 400 * (y / 400) + y % 400,
        y / 4 == 100 * (y / 400) + (y % 400) / 4,
        y / 100 == 4 * (y / 400) + (y % 400) / 100,
        y < 0 ==> -((399 - y) / 400) == y / 400,
{
}

/// Nanoseconds since the epoch of a chat timestamp `seconds.fraction`.
pub fn parse_slack_ts_to_nanos(ts: &str) -> (r: Option<i128>)
    ensures
        match r {
            Some(v) => slack_nanos(ts@) == Some(v as int),
            None => slack_nanos(ts@) is None,
        },
{
    let chars = chars_of(ts);
    let (secs, frac) = match split_once_chars(&chars, '.') {
        Some(parts) => parts,
        None => {
            return None;
        },
    };
    let secs = match parse_i128(&secs) {
        Some(v) => v,
        None => {
            return None;
        },
    };
    let nanos = match fractional_nanos_of(&frac) {
        Some(v) => v,
        None => {
            return None;
        },
    };
    if secs >= 0 {
        match secs.checked_mul(1_000_000_000) {
            Some(whole) => whole.checked_add(nanos),
            None => None,
        }
    } else {
        // Below zero the product alone may leave the range while the sum
        // does not: count from the next whole second downwards.
        match (secs + 1).checked_mul(1_000_000_000) {
            Some(whole) => whole.checked_add(nanos - 1_000_000_000),
            None => None,
        }
    }
}

fn parse_three(s: &Vec<char>, sep: char) -> (r: Option<(i32, i32, i32)>)
    ensures
        match r {
            Some((a, b, c)) => three_numbers(s@, sep) == Some((a as int, b as int, c as int)),
            None => three_numbers(s@, sep) is None,
        },
{
    let (first, rest) = match split_once_chars(s, sep) {
        Some(parts) => parts,
        None => {
            return None;
        },
    };
    let (second, third) = match split_once_chars(&rest, sep) {
        Some(parts) => parts,
        None => {
            return None;
        },
    };
    match (parse_i32(&first), parse_i32(&second), parse_i32(&third)) {
        (Some(a), Some(b), Some(c)) => Some((a, b, c)),
        _ => None,
    }
}

/// Nanoseconds since the epoch of a transcript timestamp
/// `year-month-dayThour:minute:second[.fraction]Z`.
pub fn parse_iso_ts_to_nanos(ts: &str) -> (r: Option<i128>)
    ensures
        match r {
            Some(v) => iso_nanos(ts@) == Some(v as int),
            None => iso_nanos(ts@) is None,
        },
{
    let chars = chars_of(ts);
    let n = chars.len();
    if n == 0 || chars[n - 1] != 'Z' {
        return None;
    }
    let body = subvec(&chars, 0, n - 1);
    assert(body@ == ts@.drop_last());
    let (date, time) = match split_once_chars(&body, 'T') {
        Some(parts) => parts,
        None => {
            return None;
        },
    };
    let (clock, frac) = match split_once_chars(&time, '.') {
        Some(parts) => parts,
        None => (time, Vec::new()),
    };
    let (year, month, day) = match parse_three(&date, '-') {
        Some(parts) => parts,
        None => {
            return None;
        },
    };
    let (hour, minute, second) = match parse_three(&clock, ':') {
        Some(parts) => parts,
        None => {
            return None;
        },
    };
    let nanos: i128 = if frac.len() == 0 {
        0
    } else {
        match fractional_nanos_of(&frac) {
            Some(v) => v,
            None => {
                return None;
            },
        }
    };
    let days = days_from_civil(year, month, day);
    let seconds: i128 = (days as i128) * 86_400 + (hour as i128) * 3_600 + (minute as i128) * 60
        + (second as i128);
    Some(seconds * 1_000_000_000 + nanos)
}

} // verus!
