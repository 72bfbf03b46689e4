//! Verified parsing of the decimal values that settings rows carry: whole
//! numbers, and the hour prefix of an `"HH:MM"` time-of-day string.

use vstd::prelude::*;

verus! {

/// Whether `c` is an ASCII decimal digit.
pub open spec fn is_digit(c: char) -> bool {
    '0' <= c && c <= '9'
}

/// Whether every character of `s` is an ASCII decimal digit.
pub open spec fn is_digit_seq(s: Seq<char>) -> bool {
    forall|i: int| 0 <= i < s.len() ==> is_digit(#[trigger] s[i])
}

/// The numeric value of a digit string, most significant digit first.
pub open spec fn spec_digits_value(s: Seq<char>) -> int
    decreases s.len(),
{
    if s.len() == 0 {
        0
    } else {
        spec_digits_value(s.drop_last()) * 10 + (s.last() as int - '0' as int)
    }
}

/// A digit string's value is non-negative.
proof fn lemma_digits_value_nonneg(s: Seq<char>)
    requires
        is_digit_seq(s),
    ensures
        spec_digits_value(s) >= 0,
    decreases s.len(),
{
    if s.len() > 0 {
        assert(is_digit_seq(s.drop_last()));
        lemma_digits_value_nonneg(s.drop_last());
    }
}

/// Extending a digit string never shrinks its value.
proof fn lemma_digits_value_monotone(s: Seq<char>, k: int)
    requires
        is_digit_seq(s),
        0 <= k <= s.len(),
    ensures
        spec_digits_value(s) >= spec_digits_value(s.subrange(0, k)),
    decreases s.len() - k,
{
    if k < s.len() {
        let t = s.subrange(0, k + 1);
        assert(t.drop_last() =~= s.subrange(0, k));
        assert(is_digit_seq(s.subrange(0, k)));
        lemma_digits_value_nonneg(s.subrange(0, k));
        lemma_digits_value_monotone(s, k + 1);
    } else {
        assert(s.subrange(0, k) =~= s);
    }
}

/// What parsing a whole string of decimal digits yields: the value when
/// the string is non-empty, all digits, and the value fits, else nothing.
pub open spec fn spec_parse_u64(s: Seq<char>) -> Option<u64> {
    if s.len() > 0 && is_digit_seq(s) && spec_digits_value(s) <= u64::MAX {
        Some(spec_digits_value(s) as u64)
    } else {
        None
    }
}

/// Parses a whole string as an unsigned decimal number: `Some` exactly
/// when the string is non-empty, holds only digits, and fits in a `u64`.
pub fn parse_u64(s: &str) -> (r: Option<u64>)
    ensures
        r == spec_parse_u64(s@),
{
    let len = s.unicode_len();
    if len == 0 {
        return None;
    }
    let mut acc: u64 = 0;
    let mut i: usize = 0;
    while i < len
        invariant
            i <= len,
            len == s@.len(),
            is_digit_seq(s@.subrange(0, i as int)),
            acc == spec_digits_value(s@.subrange(0, i as int)),
        decreases len - i,
    {
        let c = s.get_char(i);
        if c < '0' || c > '9' {
            return None;
        }
        let d: u64 = (c as u32 as u64) - ('0' as u32 as u64);
        let shifted = match acc.checked_mul(10) {
            Some(v) => v,
            None => {
                proof {
                    overflow_means_none(s@, i as int, acc as int, d as int);
                }
                return None;
            },
        };
        let next = match shifted.checked_add(d) {
            Some(v) => v,
            None => {
                proof {
                    overflow_means_none(s@, i as int, acc as int, d as int);
                }
                return None;
            },
        };
        proof {
            assert(s@.subrange(0, i + 1).drop_last() =~= s@.subrange(0, i as int));
            assert(is_digit_seq(s@.subrange(0, i + 1)));
        }
        acc = next;
        i = i + 1;
    }
    proof {
        assert(s@.subrange(0, len as int) =~= s@);
    }
    Some(acc)
}

/// When the next accumulator step exceeds `u64::MAX`, the whole string can
/// never parse: either a later character is not a digit, or the full value
/// is at least the overflowing prefix value.
proof fn overflow_means_none(s: Seq<char>, i: int, acc: int, d: int)
    requires
        0 <= i < s.len(),
        is_digit_seq(s.subrange(0, i)),
        is_digit(s[i]),
        acc == spec_digits_value(s.subrange(0, i)),
        d == s[i] as int - '0' as int,
        acc * 10 + d > u64::MAX,
    ensures
        spec_parse_u64(s) is None,
{
    if is_digit_seq(s) {
        let t = s.subrange(0, i + 1);
        assert(t.drop_last() =~= s.subrange(0, i));
        assert(t.last() == s[i]);
        assert(spec_digits_value(t) == acc * 10 + d);
        lemma_digits_value_monotone(s, i + 1);
        assert(s.subrange(0, s.len() as int) =~= s);
    }
}

/// What parsing a string as a `u32` yields.
pub open spec fn spec_parse_u32(s: Seq<char>) -> Option<u32> {
    if s.len() > 0 && is_digit_seq(s) && spec_digits_value(s) <= u32::MAX {
        Some(spec_digits_value(s) as u32)
    } else {
        None
    }
}

/// Parses a whole string as an unsigned decimal `u32`.
pub fn parse_u32(s: &str) -> (r: Option<u32>)
    ensures
        r == spec_parse_u32(s@),
{
    match parse_u64(s) {
        Some(v) => {
            proof {
                if s@.len() > 0 && is_digit_seq(s@) {
                    lemma_digits_value_nonneg(s@);
                }
            }
            if v <= u32::MAX as u64 {
                Some(v as u32)
            } else {
                None
            }
        },
        None => {
            proof {
                if s@.len() > 0 && is_digit_seq(s@) {
                    lemma_digits_value_nonneg(s@);
                }
            }
            None
        },
    }
}

/// The prefix of `s` before its first `':'`, or all of `s` when it has
/// none.
pub open spec fn spec_colon_prefix(s: Seq<char>) -> Seq<char>
    decreases s.len(),
{
    if s.len() == 0 {
        s
    } else if s[0] == ':' {
        Seq::empty()
    } else {
        seq![s[0]] + spec_colon_prefix(s.drop_first())
    }
}

/// The recursive colon prefix equals the subrange up to the first colon.
proof fn lemma_colon_prefix_subrange(s: Seq<char>, p: int)
    requires
        0 <= p <= s.len(),
        forall|j: int| 0 <= j < p ==> s[j] != ':',
        p < s.len() ==> s[p] == ':',
    ensures
        spec_colon_prefix(s) == s.subrange(0, p),
    decreases s.len(),
{
    if s.len() == 0 {
        assert(s.subrange(0, p) =~= s);
    } else if s[0] == ':' {
        assert(p == 0);
        assert(s.subrange(0, 0) =~= Seq::<char>::empty());
    } else {
        let rest = s.drop_first();
        lemma_colon_prefix_subrange(rest, p - 1);
        assert(seq![s[0]] + rest.subrange(0, p - 1) =~= s.subrange(0, p));
    }
}

/// What the hour field of an `"HH:MM"` setting parses to: the decimal
/// value of everything before the first colon.
pub open spec fn spec_hour_of(s: Seq<char>) -> Option<u32> {
    spec_parse_u32(spec_colon_prefix(s))
}

/// Parses the hour out of an `"HH:MM"` time-of-day string: the decimal
/// prefix before the first colon (the whole string when it has no colon).
pub fn parse_hour(s: &str) -> (r: Option<u32>)
    ensures
        r == spec_hour_of(s@),
{
    let len = s.unicode_len();
    let mut p: usize = 0;
    while p < len && s.get_char(p) != ':'
        invariant
            p <= len,
            len == s@.len(),
            forall|j: int| 0 <= j < p ==> s@[j] != ':',
        decreases len - p,
    {
        p = p + 1;
    }
    proof {
        lemma_colon_prefix_subrange(s@, p as int);
    }
    let prefix = s.substring_char(0, p);
    parse_u32(prefix)
}

} // verus!
