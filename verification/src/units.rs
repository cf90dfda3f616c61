//! Amounts written in whole units with a decimal fraction, read as a count of
//! the smallest unit: one whole unit is 10^24 of the smallest.

use vstd::prelude::*;
use vstd::string::StringSliceAdditionalSpecFns;

verus! {

/// The byte that separates the whole part of an amount from its fraction.
pub const DOT: u8 = 0x2e;

/// The sign that may stand in front of a run of digits.
pub const PLUS: u8 = 0x2b;

/// Decimal places of one whole unit.
pub const FRACTION_DIGITS: usize = 24;

/// One whole unit, counted in the smallest unit.
pub const ONE_UNIT: u128 = 1_000_000_000_000_000_000_000_000u128;

/// Ten to the power `n`.
pub open spec fn pow10(n: nat) -> nat
    decreases n,
{
    if n == 0 {
        1
    } else {
        10 * pow10((n - 1) as nat)
    }
}

/// Whether `b` is one of the ASCII digits `0` to `9`.
pub open spec fn is_digit(b: u8) -> bool {
    0x30 <= b <= 0x39
}

/// Whether every byte of `s` is an ASCII digit.
pub open spec fn all_digits(s: Seq<u8>) -> bool {
    forall|i: int| 0 <= i < s.len() ==> is_digit(#[trigger] s[i])
}

/// The number that a run of decimal digits denotes, most significant digit first.
pub open spec fn digits_value(s: Seq<u8>) -> nat
    decreases s.len(),
{
    if s.len() == 0 {
        0
    } else {
        10 * digits_value(s.drop_last()) + (s.last() - 0x30) as nat
    }
}

/// The digits of a part: the part itself, without a leading `+` if it has one.
pub open spec fn unsigned_digits(s: Seq<u8>) -> Seq<u8> {
    if s.len() > 0 && s[0] == PLUS {
        s.subrange(1, s.len() as int)
    } else {
        s
    }
}

/// The number a part denotes: an optional `+`, then at least one digit, and a
/// value that a `u128` can hold. Anything else denotes nothing.
pub open spec fn unsigned_of(s: Seq<u8>) -> Option<u128> {
    let digits = unsigned_digits(s);
    if digits.len() > 0 && all_digits(digits) && digits_value(digits) <= u128::MAX {
        Some(digits_value(digits) as u128)
    } else {
        None
    }
}

/// The index of the first `.` of `s` at or after `from`, or the length of `s`
/// if there is none.
pub open spec fn part_end(s: Seq<u8>, from: int) -> int
    decreases s.len() - from,
{
    if from >= s.len() {
        s.len() as int
    } else if s[from] == DOT {
        from
    } else {
        part_end(s, from + 1)
    }
}

/// The amount that `s` denotes, in the smallest unit.
///
/// `s` is cut at each `.`. The first part is the whole units. The second part,
/// if there is one, is the fraction: it has at most 24 bytes, and a fraction of
/// `k` bytes counts in units of 10^(24 - k). Further parts are not looked at.
/// Each part read must denote a number, and the amount must fit in a `u128`.
pub open spec fn yocto_of(s: Seq<u8>) -> Option<u128> {
    let whole_end = part_end(s, 0);
    match unsigned_of(s.subrange(0, whole_end)) {
        None => None,
        Some(whole) => {
            if whole * ONE_UNIT > u128::MAX {
                None
            } else if whole_end == s.len() {
                Some((whole * ONE_UNIT) as u128)
            } else {
                let fraction = s.subrange(whole_end + 1, part_end(s, whole_end + 1));
                match unsigned_of(fraction) {
                    None => None,
                    Some(f) => {
                        if fraction.len() > FRACTION_DIGITS {
                            None
                        } else {
                            let scaled = f * pow10((FRACTION_DIGITS - fraction.len()) as nat);
                            if whole * ONE_UNIT + scaled > u128::MAX {
                                None
                            } else {
                                Some((whole * ONE_UNIT + scaled) as u128)
                            }
                        }
                    },
                }
            }
        },
    }
}

/// A run of digits denotes at least what any of its prefixes denotes.
proof fn lemma_digits_value_prefix(s: Seq<u8>, k: int)
    requires
        0 <= k <= s.len(),
    ensures
        digits_value(s.subrange(0, k)) <= digits_value(s),
    decreases s.len() - k,
{
    if k == s.len() {
        assert(s.subrange(0, k) =~= s);
    } else {
        lemma_digits_value_prefix(s, k + 1);
        let longer = s.subrange(0, k + 1);
        assert(longer.drop_last() =~= s.subrange(0, k));
    }
}

/// Ten to the power 24 is one whole unit.
proof fn lemma_pow10_one_unit()
    ensures
        pow10(FRACTION_DIGITS as nat) == ONE_UNIT,
{
    reveal_with_fuel(pow10, 25);
}

/// Finds where the part that begins at `from` ends.
fn find_part_end(s: &[u8], from: usize) -> (end: usize)
    requires
        from <= s.len(),
    ensures
        end == part_end(s@, from as int),
        from <= end <= s.len(),
{
    let mut i: usize = from;
    while i < s.len() && s[i] != DOT
        invariant
            from <= i <= s.len(),
            part_end(s@, i as int) == part_end(s@, from as int),
        decreases s.len() - i,
    {
        i = i + 1;
    }
    i
}

/// Reads the part `s[from..to]` as a number.
fn parse_unsigned(s: &[u8], from: usize, to: usize) -> (r: Option<u128>)
    requires
        from <= to <= s.len(),
    ensures
        r == unsigned_of(s@.subrange(from as int, to as int)),
{
    let ghost part = s@.subrange(from as int, to as int);
    let mut start: usize = from;
    if start < to && s[start] == PLUS {
        start = start + 1;
    }
    let ghost digits = s@.subrange(start as int, to as int);
    assert(digits =~= unsigned_digits(part));
    if start == to {
        return None;
    }
    let mut value: u128 = 0;
    let mut i: usize = start;
    while i < to
        invariant
            start <= i <= to <= s.len(),
            from <= start,
            digits == s@.subrange(start as int, to as int),
            digits == unsigned_digits(s@.subrange(from as int, to as int)),
            all_digits(digits.subrange(0, i - start)),
            value == digits_value(digits.subrange(0, i - start)),
        decreases to - i,
    {
        let b: u8 = s[i];
        let ghost before = digits.subrange(0, i - start);
        let ghost after = digits.subrange(0, i - start + 1);
        assert(after.drop_last() =~= before);
        assert(after.last() == b);
        if b < 0x30 || b > 0x39 {
            assert(!is_digit(digits[i - start]));
            return None;
        }
        proof {
            lemma_digits_value_prefix(digits, i - start + 1);
        }
        let d: u128 = (b - 0x30) as u128;
        let next = match value.checked_mul(10) {
            Some(tenfold) => tenfold.checked_add(d),
            None => None,
        };
        match next {
            Some(v) => {
                value = v;
            },
            None => {
                return None;
            },
        }
        i = i + 1;
    }
    assert(digits.subrange(0, to - start) =~= digits);
    Some(value)
}

/// Computes ten to the power `n`.
fn pow10_u128(n: usize) -> (r: u128)
    requires
        n <= FRACTION_DIGITS,
    ensures
        r == pow10(n as nat),
{
    let mut r: u128 = 1;
    let mut i: usize = 0;
    proof {
        lemma_pow10_monotonic(0, FRACTION_DIGITS as nat);
    }
    while i < n
        invariant
            i <= n <= FRACTION_DIGITS,
            r == pow10(i as nat),
            r <= pow10(FRACTION_DIGITS as nat),
        decreases n - i,
    {
        proof {
            lemma_pow10_one_unit();
            lemma_pow10_monotonic((i + 1) as nat, FRACTION_DIGITS as nat);
        }
        r = r * 10;
        i = i + 1;
    }
    r
}

/// A larger exponent gives a power of ten that is no smaller.
proof fn lemma_pow10_monotonic(a: nat, b: nat)
    requires
        a <= b,
    ensures
        pow10(a) <= pow10(b),
    decreases b,
{
    if a < b {
        lemma_pow10_monotonic(a, (b - 1) as nat);
    }
}

/// Reads an amount written in whole units, such as `12.2222`, and gives it in
/// the smallest unit. Gives `None` exactly when the text denotes no amount.
pub fn parse_yocto(value: &str) -> (r: Option<u128>)
    ensures
        r == yocto_of(value.spec_bytes()),
{
    let s = value.as_bytes();
    let whole_end = find_part_end(s, 0);
    let whole = match parse_unsigned(s, 0, whole_end) {
        Some(w) => w,
        None => {
            return None;
        },
    };
    let part1 = match whole.checked_mul(ONE_UNIT) {
        Some(p) => p,
        None => {
            return None;
        },
    };
    if whole_end == s.len() {
        return Some(part1);
    }
    let fraction_end = find_part_end(s, whole_end + 1);
    let f = match parse_unsigned(s, whole_end + 1, fraction_end) {
        Some(f) => f,
        None => {
            return None;
        },
    };
    let power: usize = fraction_end - (whole_end + 1);
    if power > FRACTION_DIGITS {
        return None;
    }
    let scale = pow10_u128(FRACTION_DIGITS - power);
    match f.checked_mul(scale) {
        Some(part2) => part1.checked_add(part2),
        None => None,
    }
}

/// Reads an amount written in whole units and gives it in the smallest unit.
///
/// The text must denote an amount; `parse_yocto` tells whether it does.
pub fn to_yocto(value: &str) -> (r: u128)
    requires
        yocto_of(value.spec_bytes()) is Some,
    ensures
        yocto_of(value.spec_bytes()) == Some(r),
{
    match parse_yocto(value) {
        Some(r) => r,
        None => 0,
    }
}

} // verus!
