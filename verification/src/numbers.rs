//! A verified decimal integer parser, matching the grammar `str::parse::<i32>`
//! accepts: an optional `+` or `-` sign followed by one or more ASCII digits,
//! rejected when the value falls outside the `i32` range.

use vstd::prelude::*;

verus! {

/// Whether `c` is an ASCII decimal digit.
pub open spec fn is_digit(c: char) -> bool {
    0x30 <= c as u32 && c as u32 <= 0x39
}

/// The numeric value of an ASCII digit.
pub open spec fn digit_val(c: char) -> int {
    c as u32 - 0x30
}

/// The value of a string of digits read in base ten.
pub open spec fn digits_value(s: Seq<char>) -> int
    decreases s.len(),
{
    if s.len() == 0 {
        0
    } else {
        digits_value(s.drop_last()) * 10 + digit_val(s.last())
    }
}

/// Whether `s` is a non-empty run of ASCII digits.
pub open spec fn all_digits(s: Seq<char>) -> bool {
    s.len() > 0 && forall|i: int| 0 <= i < s.len() ==> is_digit(s[i])
}

/// The mathematical integer a well-formed decimal literal denotes, or `None`
/// when `s` is not of the form `[+-]?[0-9]+`.
pub open spec fn spec_int_literal(s: Seq<char>) -> Option<int> {
    if all_digits(s) {
        Some(digits_value(s))
    } else if s.len() > 0 && (s[0] == '-' || s[0] == '+') && all_digits(s.drop_first()) {
        if s[0] == '-' {
            Some(-digits_value(s.drop_first()))
        } else {
            Some(digits_value(s.drop_first()))
        }
    } else {
        None
    }
}

/// What parsing `s` as an `i32` yields: the denoted integer when it exists
/// and fits, `None` otherwise.
pub open spec fn spec_parse_i32(s: Seq<char>) -> Option<int> {
    match spec_int_literal(s) {
        Some(v) => if -0x8000_0000 <= v && v <= 0x7fff_ffff {
            Some(v)
        } else {
            None
        },
        None => None,
    }
}

proof fn lemma_digits_nonneg(s: Seq<char>)
    requires
        forall|i: int| 0 <= i < s.len() ==> is_digit(s[i]),
    ensures
        digits_value(s) >= 0,
    decreases s.len(),
{
    if s.len() > 0 {
        lemma_digits_nonneg(s.drop_last());
    }
}

/// Parses `s` as a decimal `i32`, agreeing exactly with `spec_parse_i32`: it
/// returns a value if and only if `s` is a signed digit string whose value
/// fits in an `i32`.
pub fn parse_i32(s: &str) -> (r: Option<i32>)
    ensures
        match r {
            Some(v) => spec_parse_i32(s@) == Some(v as int),
            None => spec_parse_i32(s@) is None,
        },
{
    let n = s.unicode_len();
    if n == 0 {
        return None;
    }
    let c0 = s.get_char(0);
    let neg = c0 == '-';
    let start: usize = if c0 == '-' || c0 == '+' {
        1
    } else {
        0
    };
    if n == start {
        return None;
    }
    let limit: u64 = if neg {
        0x8000_0000
    } else {
        0x7fff_ffff
    };
    let mut acc: u64 = 0;
    let mut too_big = false;
    let mut i: usize = start;
    while i < n
        invariant
            start <= i <= n,
            start < n,
            start <= 1,
            n == s@.len(),
            neg ==> s@[0] == '-',
            !neg && start == 1 ==> s@[0] == '+',
            start == 0 ==> s@[0] != '-' && s@[0] != '+',
            limit == if neg {
                0x8000_0000u64
            } else {
                0x7fff_ffffu64
            },
            forall|j: int| start <= j < i ==> is_digit(s@[j]),
            !too_big ==> acc as int == digits_value(s@.subrange(start as int, i as int)) && acc
                <= limit,
            too_big ==> digits_value(s@.subrange(start as int, i as int)) > limit,
        decreases n - i,
    {
        let c = s.get_char(i);
        let u = c as u32;
        if !(0x30 <= u && u <= 0x39) {
            proof {
                assert(!is_digit(s@[i as int]));
                if start == 1 {
                    assert(!is_digit(s@.drop_first()[i as int - 1]));
                }
            }
            return None;
        }
        proof {
            let region = s@.subrange(start as int, i as int + 1);
            assert(region.drop_last() =~= s@.subrange(start as int, i as int));
            assert(region.last() == s@[i as int]);
            lemma_digits_nonneg(s@.subrange(start as int, i as int));
        }
        if too_big {
        } else {
            let d: u64 = (u - 0x30) as u64;
            let wide: u64 = acc * 10 + d;
            if wide > limit {
                too_big = true;
            } else {
                acc = wide;
            }
        }
        i = i + 1;
    }
    proof {
        if start == 1 {
            assert(s@.subrange(1, n as int) =~= s@.drop_first());
            assert(!is_digit(s@[0]));
        } else {
            assert(s@.subrange(0, n as int) =~= s@);
        }
        if !too_big {
            lemma_digits_nonneg(s@.subrange(start as int, n as int));
        }
    }
    if too_big {
        return None;
    }
    if neg {
        if acc == 0x8000_0000u64 {
            Some(i32::MIN)
        } else {
            Some(-(acc as i32))
        }
    } else {
        Some(acc as i32)
    }
}

} // verus!
