//! Decimal numbers in text.
use crate::text::{digit, is_digit};
use vstd::prelude::*;

verus! {

/// The value of a decimal digit.
pub open spec fn digit_value(c: char) -> nat {
    ((c as int) - ('0' as int)) as nat
}

/// The character of a digit.
pub open spec fn digit_char(d: nat) -> char {
    (('0' as int) + d) as char
}

/// Whether `s` is made of decimal digits.
pub open spec fn all_digits(s: Seq<char>) -> bool {
    forall|i: int| 0 <= i < s.len() ==> is_digit(#[trigger] s[i])
}

/// The number that a run of digits writes.
pub open spec fn digits_value(s: Seq<char>) -> nat
    decreases s.len(),
{
    if s.len() == 0 {
        0
    } else {
        digits_value(s.drop_last()) * 10 + digit_value(s.last())
    }
}

/// A number in decimal.
pub open spec fn decimal(n: nat) -> Seq<char>
    decreases n,
{
    if n < 10 {
        seq![digit_char(n)]
    } else {
        decimal(n / 10).push(digit_char(n % 10))
    }
}

/// A signed number in decimal.
pub open spec fn signed_decimal(n: int) -> Seq<char> {
    if n < 0 {
        seq!['-'] + decimal((-n) as nat)
    } else {
        decimal(n as nat)
    }
}

/// The number from 0 to `max` that `s` writes: digits, after an optional `+`.
pub open spec fn unsigned_of(s: Seq<char>, max: int) -> Option<int> {
    let digits = if s.len() > 0 && s[0] == '+' {
        s.skip(1)
    } else {
        s
    };
    if digits.len() == 0 || !all_digits(digits) || digits_value(digits) > max {
        None
    } else {
        Some(digits_value(digits) as int)
    }
}

/// The number from `-max - 1` to `max` that `s` writes.
pub open spec fn signed_of(s: Seq<char>, max: int) -> Option<int> {
    if s.len() > 0 && s[0] == '-' {
        let digits = s.skip(1);
        if digits.len() == 0 || !all_digits(digits) || digits_value(digits) > max + 1 {
            None
        } else {
            Some(-(digits_value(digits) as int))
        }
    } else {
        unsigned_of(s, max)
    }
}

proof fn lemma_prefix_value(s: Seq<char>, k: int)
    requires
        0 <= k <= s.len(),
    ensures
        digits_value(s.take(k)) <= digits_value(s),
    decreases s.len() - k,
{
    if k == s.len() {
        assert(s.take(k) =~= s);
    } else {
        assert(s.take(k + 1).drop_last() =~= s.take(k));
        lemma_prefix_value(s, k + 1);
    }
}

/// The number that `s` writes from position `from` on, where it is made of
/// digits alone and does not pass `max`.
fn digits_from(s: &[char], from: usize, max: u64) -> (res: Option<u64>)
    requires
        from <= s@.len(),
    ensures
        match res {
            Some(n) => from < s@.len() && all_digits(s@.skip(from as int)) && n == digits_value(
                s@.skip(from as int),
            ) && n <= max,
            None => from == s@.len() || !all_digits(s@.skip(from as int)) || digits_value(
                s@.skip(from as int),
            ) > max,
        },
{
    let ghost digits = s@.skip(from as int);
    if from == s.len() {
        return None;
    }
    let mut value: u64 = 0;
    let mut i: usize = from;
    while i < s.len()
        invariant
            from <= i <= s@.len(),
            digits == s@.skip(from as int),
            forall|j: int| 0 <= j < i - from ==> is_digit(#[trigger] digits[j]),
            value == digits_value(digits.take(i - from)),
            value <= max,
        decreases s@.len() - i,
    {
        let c = s[i];
        let ghost k = i - from;
        assert(digits[k] == c);
        if !digit(c) {
            return None;
        }
        let d: u64 = (c as u32 - '0' as u32) as u64;
        proof {
            assert(digits.take(k + 1).drop_last() =~= digits.take(k));
            lemma_prefix_value(digits, k + 1);
        }
        match value.checked_mul(10) {
            Some(tens) => match tens.checked_add(d) {
                Some(next) => {
                    if next > max {
                        return None;
                    }
                    value = next;
                },
                None => {
                    return None;
                },
            },
            None => {
                return None;
            },
        }
        i += 1;
    }
    assert(digits.take(digits.len() as int) =~= digits);
    Some(value)
}

/// The number from 0 to `max` that `s` writes.
pub fn parse_unsigned(s: &[char], max: u64) -> (res: Option<u64>)
    ensures
        match res {
            Some(n) => unsigned_of(s@, max as int) == Some(n as int) && n <= max,
            None => unsigned_of(s@, max as int) is None,
        },
{
    assert(s@.skip(0) =~= s@);
    if s.len() > 0 && s[0] == '+' {
        digits_from(s, 1, max)
    } else {
        digits_from(s, 0, max)
    }
}

/// The number from `-max - 1` to `max` that `s` writes.
pub fn parse_signed(s: &[char], max: i64) -> (res: Option<i64>)
    requires
        0 <= max,
    ensures
        match res {
            Some(n) => signed_of(s@, max as int) == Some(n as int) && -max - 1 <= n <= max,
            None => signed_of(s@, max as int) is None,
        },
{
    if s.len() > 0 && s[0] == '-' {
        match digits_from(s, 1, max as u64 + 1) {
            Some(n) => {
                if n == max as u64 + 1 {
                    Some(-max - 1)
                } else {
                    Some(-(n as i64))
                }
            },
            None => None,
        }
    } else {
        match parse_unsigned(s, max as u64) {
            Some(n) => Some(n as i64),
            None => None,
        }
    }
}

/// The number of 64 bits that `s` writes.
pub open spec fn u64_in(s: Seq<char>) -> Option<u64> {
    match unsigned_of(s, u64::MAX as int) {
        Some(n) => Some(n as u64),
        None => None,
    }
}

/// The number of 32 bits that `s` writes.
pub open spec fn u32_in(s: Seq<char>) -> Option<u32> {
    match unsigned_of(s, u32::MAX as int) {
        Some(n) => Some(n as u32),
        None => None,
    }
}

/// The signed number of 64 bits that `s` writes.
pub open spec fn i64_in(s: Seq<char>) -> Option<i64> {
    match signed_of(s, i64::MAX as int) {
        Some(n) => Some(n as i64),
        None => None,
    }
}

pub fn parse_u64(s: &[char]) -> (res: Option<u64>)
    ensures
        res == u64_in(s@),
{
    parse_unsigned(s, u64::MAX)
}

pub fn parse_u32(s: &[char]) -> (res: Option<u32>)
    ensures
        res == u32_in(s@),
{
    match parse_unsigned(s, 0xffff_ffff) {
        Some(n) => Some(n as u32),
        None => None,
    }
}

pub fn parse_i64(s: &[char]) -> (res: Option<i64>)
    ensures
        res == i64_in(s@),
{
    parse_signed(s, i64::MAX)
}

/// Kibibytes in bytes, modulo two to the power of 64.
pub open spec fn kib(n: u64) -> u64 {
    n.wrapping_mul(1024)
}

pub fn kib_bytes(n: u64) -> (res: u64)
    ensures
        res == kib(n),
        n <= 0x3f_ffff_ffff_ffff ==> res == n * 1024,
{
    n.wrapping_mul(1024)
}

/// A number in decimal.
pub fn format_unsigned(n: u64) -> (res: String)
    ensures
        res@ == decimal(n as nat),
    decreases n,
{
    let c: char = (48u8 + (n % 10) as u8) as char;
    assert(c == digit_char((n % 10) as nat));
    if n < 10 {
        let mut out = String::new();
        out.push(c);
        assert(out@ =~= seq![digit_char(n as nat)]);
        out
    } else {
        let mut out = format_unsigned(n / 10);
        out.push(c);
        out
    }
}

/// A signed number in decimal.
pub fn format_signed(n: i64) -> (res: String)
    ensures
        res@ == signed_decimal(n as int),
{
    if n >= 0 {
        return format_unsigned(n as u64);
    }
    let size: u64 = if n == i64::MIN {
        9223372036854775808
    } else {
        (-n) as u64
    };
    let mut out = String::new();
    out.push('-');
    out.append(format_unsigned(size).as_str());
    assert(out@ =~= seq!['-'] + decimal(size as nat));
    out
}

/// What is written in decimal is read back.
pub proof fn decimal_reads_back(n: nat, max: int)
    requires
        n <= max,
    ensures
        unsigned_of(decimal(n), max) == Some(n as int),
        all_digits(decimal(n)),
        decimal(n).len() > 0,
{
    lemma_decimal(n);
    assert(is_digit(decimal(n)[0]));
}

proof fn lemma_decimal(n: nat)
    ensures
        decimal(n).len() > 0,
        all_digits(decimal(n)),
        digits_value(decimal(n)) == n,
    decreases n,
{
    if n < 10 {
        let s = seq![digit_char(n)];
        assert(s.drop_last() =~= Seq::empty());
        assert(digits_value(s.drop_last()) == 0);
    } else {
        lemma_decimal(n / 10);
        let s = decimal(n / 10).push(digit_char(n % 10));
        assert(s.drop_last() =~= decimal(n / 10));
    }
}

/// A number is written in decimal digits, each worth ten times the one behind it; a negative
/// one has a minus before it. It is read back, and a kibibyte is 1024 bytes.
pub proof fn numbers_are_decimal(n: nat, d: nat)
    requires
        d < 10,
    ensures
        decimal(d).len() == 1 && decimal(d)[0] == "0123456789"@[d as int],
        n > 0 ==> decimal(10 * n + d) == decimal(n).push("0123456789"@[d as int]),
        n > 0 ==> signed_decimal(-(n as int)) == "-"@ + decimal(n),
        signed_decimal(n as int) == decimal(n),
        n <= u64::MAX ==> u64_in(decimal(n)) == Some(n as u64),
        n <= u32::MAX ==> u32_in(decimal(n)) == Some(n as u32),
        n > u32::MAX ==> u32_in(decimal(n)) is None,
        n * 1024 <= u64::MAX ==> kib(n as u64) == n * 1024,
{
    reveal_strlit("0123456789");
    reveal_strlit("-");
    assert("-"@ =~= seq!['-']);
    assert((10 * n + d) / 10 == n && (10 * n + d) % 10 == d);
    assert(digit_char(d) == "0123456789"@[d as int]);
    assert(decimal(d) =~= seq![digit_char(d)]);
    if n <= u64::MAX {
        decimal_reads_back(n, u64::MAX as int);
    }
    if n <= u32::MAX {
        decimal_reads_back(n, u32::MAX as int);
    } else {
        decimal_reads_back(n, n as int);
    }
}

} // verus!
