//! The numeric literal rule.
//!
//! A token of exactly one `0` byte is the integer zero. Otherwise an
//! optional leading `+` or `-` sign is followed by one or more decimal
//! digit bytes, and nothing else; the accumulated magnitude saturates at
//! the 64-bit signed range rather than wrapping. A general-path value of
//! zero (`00`, `+0`, `-0`) is a parse failure, not a zero literal: only
//! the single-byte token `0` denotes zero. This is the one canonical
//! rule, chosen deliberately, and the tests pin it down.

use vstd::prelude::*;

verus! {

/// Whether `b` is a decimal digit byte.
pub open spec fn is_digit(b: u8) -> bool {
    48 <= b && b <= 57
}

/// Whether every byte of `t` is a decimal digit.
pub open spec fn all_digits(t: Seq<u8>) -> bool {
    forall|i: int| 0 <= i < t.len() ==> is_digit(#[trigger] t[i])
}

/// The magnitude denoted by the digit string `t`, read left to right.
pub open spec fn digits_value(t: Seq<u8>) -> int
    decreases t.len(),
{
    if t.len() == 0 {
        0
    } else {
        digits_value(t.drop_last()) * 10 + (t.last() - 48)
    }
}

/// `v` clamped (saturating) to the 64-bit signed range.
pub open spec fn clamp_to_i64(v: int) -> i64 {
    if v > i64::MAX {
        i64::MAX
    } else if v < i64::MIN {
        i64::MIN
    } else {
        v as i64
    }
}

/// The integer a token denotes, if any: exactly `0` is zero; otherwise
/// an optional sign, then one or more digits and nothing else, with the
/// magnitude saturating at the 64-bit signed range; a general-path value
/// of zero is a failure.
pub open spec fn token_int(t: Seq<u8>) -> Option<i64> {
    if t.len() == 1 && t[0] == 48 {
        Some(0i64)
    } else {
        let signed = t.len() > 0 && (t[0] == 43 || t[0] == 45);
        let neg = t.len() > 0 && t[0] == 45;
        let digits = if signed {
            t.drop_first()
        } else {
            t
        };
        if digits.len() > 0 && all_digits(digits) {
            let v = clamp_to_i64(
                if neg {
                    -digits_value(digits)
                } else {
                    digits_value(digits)
                },
            );
            if v == 0 {
                None
            } else {
                Some(v)
            }
        } else {
            None
        }
    }
}

/// A digit string denotes a non-negative magnitude.
pub proof fn lemma_digits_value_nonneg(t: Seq<u8>)
    requires
        all_digits(t),
    ensures
        digits_value(t) >= 0,
    decreases t.len(),
{
    if t.len() > 0 {
        assert(forall|i: int| 0 <= i < t.len() - 1 ==> t.drop_last()[i] == t[i]);
        lemma_digits_value_nonneg(t.drop_last());
    }
}

/// Parse `token` as an integer literal, per the numeric literal rule.
pub fn parse_integer(token: &[u8]) -> (r: Option<i64>)
    ensures
        r == token_int(token@),
{
    let n = token.len();
    if n == 1 && token[0] == 48 {
        return Some(0);
    }
    let mut start: usize = 0;
    let mut neg = false;
    if n > 0 && (token[0] == 43 || token[0] == 45) {
        neg = token[0] == 45;
        start = 1;
    }
    let ghost digits: Seq<u8> = token@.subrange(start as int, n as int);
    proof {
        if start == 1 {
            assert(digits =~= token@.drop_first());
        } else {
            assert(digits =~= token@);
        }
    }
    if start >= n {
        return None;
    }
    let cap: u64 = if neg {
        9223372036854775808
    } else {
        9223372036854775807
    };
    let mut mag: u64 = 0;
    let mut i: usize = start;
    while i < n
        invariant
            n == token@.len(),
            start <= i <= n,
            start < n,
            start == (if token@.len() > 0 && (token@[0] == 43 || token@[0] == 45) {
                1int
            } else {
                0int
            }),
            neg == (token@.len() > 0 && token@[0] == 45),
            !(token@.len() == 1 && token@[0] == 48),
            digits == token@.subrange(start as int, n as int),
            cap == (if neg {
                9223372036854775808u64
            } else {
                9223372036854775807u64
            }),
            all_digits(digits.take(i - start)),
            mag <= cap,
            mag as int == (if digits_value(digits.take(i - start)) <= cap as int {
                digits_value(digits.take(i - start))
            } else {
                cap as int
            }),
        decreases n - i,
    {
        let b = token[i];
        if b < 48 || b > 57 {
            proof {
                assert(digits[i - start] == b);
                assert(!all_digits(digits));
            }
            return None;
        }
        proof {
            let k = i - start;
            let prefix = digits.take(k + 1);
            assert(prefix.drop_last() =~= digits.take(k as int));
            assert(prefix.last() == digits[k as int]);
            lemma_digits_value_nonneg(digits.take(k as int));
            assert(all_digits(prefix));
        }
        let m2: u128 = (mag as u128) * 10 + ((b - 48) as u128);
        if m2 > cap as u128 {
            mag = cap;
        } else {
            mag = m2 as u64;
        }
        i = i + 1;
    }
    proof {
        assert(digits.take(i - start) =~= digits);
        lemma_digits_value_nonneg(digits);
    }
    let value: i64 = if neg {
        if mag >= 9223372036854775808 {
            i64::MIN
        } else {
            -(mag as i64)
        }
    } else {
        mag as i64
    };
    if value == 0 {
        None
    } else {
        Some(value)
    }
}

} // verus!
