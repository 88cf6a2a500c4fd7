//! Decimal parsing of unsigned integers, as `str::parse` does it.

use vstd::prelude::*;

verus! {

/// Why a decimal number did not parse (`std::num::IntErrorKind`).
#[derive(Debug, Clone, Copy, PartialEq, Eq, Structural)]
pub enum IntErrorKind {
    Empty,
    InvalidDigit,
    PosOverflow,
}

pub open spec fn digit_value(c: char) -> Option<nat> {
    if '0' <= c && c <= '9' {
        Some(((c as u32) - ('0' as u32)) as nat)
    } else {
        None
    }
}

/// Reads digits left to right from index `i` onto `acc`; the first
/// non-digit or the first step past `max` decides the error.
pub open spec fn digits_from(s: Seq<char>, i: nat, acc: nat, max: nat) -> Result<
    nat,
    IntErrorKind,
>
    decreases s.len() - i,
{
    if i >= s.len() {
        Ok(acc)
    } else {
        match digit_value(s[i as int]) {
            None => Err(IntErrorKind::InvalidDigit),
            Some(d) => if acc * 10 + d > max {
                Err(IntErrorKind::PosOverflow)
            } else {
                digits_from(s, i + 1, acc * 10 + d, max)
            },
        }
    }
}

/// `str::parse` of an unsigned integer type whose largest value is `max`: an
/// optional leading `+`, then decimal digits only.
pub open spec fn parse_unsigned(s: Seq<char>, max: nat) -> Result<nat, IntErrorKind> {
    if s.len() == 0 {
        Err(IntErrorKind::Empty)
    } else if s.len() == 1 && (s[0] == '+' || s[0] == '-') {
        Err(IntErrorKind::InvalidDigit)
    } else if s[0] == '+' {
        digits_from(s, 1, 0, max)
    } else {
        digits_from(s, 0, 0, max)
    }
}

proof fn lemma_digits_bounded(s: Seq<char>, i: nat, acc: nat, max: nat)
    requires
        acc <= max,
    ensures
        digits_from(s, i, acc, max) matches Ok(v) ==> v <= max,
    decreases s.len() - i,
{
    if i < s.len() {
        match digit_value(s[i as int]) {
            None => {},
            Some(d) => if acc * 10 + d <= max {
                lemma_digits_bounded(s, i + 1, acc * 10 + d, max);
            },
        }
    }
}

/// Parses `s` as an unsigned integer no larger than `max`.
pub fn parse_unsigned_chars(s: &[char], max: u64) -> (r: Result<u64, IntErrorKind>)
    ensures
        match parse_unsigned(s@, max as nat) {
            Ok(v) => r == Ok::<u64, IntErrorKind>(v as u64) && v <= max,
            Err(e) => r == Err::<u64, IntErrorKind>(e),
        },
{
    if s.len() == 0 {
        return Err(IntErrorKind::Empty);
    }
    if s.len() == 1 && (s[0] == '+' || s[0] == '-') {
        return Err(IntErrorKind::InvalidDigit);
    }
    let start: usize = if s[0] == '+' {
        1
    } else {
        0
    };
    let mut i: usize = start;
    let mut acc: u64 = 0;
    proof {
        lemma_digits_bounded(s@, start as nat, 0, max as nat);
    }
    while i < s.len()
        invariant
            start <= i <= s@.len(),
            acc <= max,
            parse_unsigned(s@, max as nat) == digits_from(s@, i as nat, acc as nat, max as nat),
        decreases s.len() - i,
    {
        let c = s[i];
        if !('0' <= c && c <= '9') {
            return Err(IntErrorKind::InvalidDigit);
        }
        let d: u64 = (c as u32 - '0' as u32) as u64;
        let next: u128 = (acc as u128) * 10 + (d as u128);
        if next > max as u128 {
            return Err(IntErrorKind::PosOverflow);
        }
        acc = next as u64;
        i = i + 1;
    }
    proof {
        lemma_digits_bounded(s@, i as nat, acc as nat, max as nat);
    }
    Ok(acc)
}

} // verus!
