//! Decimal integer parsing for the `exit` builtin, with the same acceptance
//! rules as `str::parse::<i32>`: an optional single `+` or `-` sign followed
//! by one or more ASCII digits, and a result within the `i32` range.

use vstd::prelude::*;
use vstd::string::StrSliceExecFns;

verus! {

pub open spec fn is_digit_char(c: char) -> bool {
    0x30 <= (c as u32) && (c as u32) <= 0x39
}

pub open spec fn digit_val(c: char) -> int {
    (c as u32) as int - 0x30
}

pub open spec fn all_digits(s: Seq<char>) -> bool {
    forall|i: int| 0 <= i < s.len() ==> is_digit_char(s[i])
}

/// The value of a digit string read left to right.
pub open spec fn digits_value(s: Seq<char>) -> int
    decreases s.len(),
{
    if s.len() == 0 {
        0
    } else {
        digits_value(s.drop_last()) * 10 + digit_val(s.last())
    }
}

pub proof fn lemma_digits_value_nonneg(s: Seq<char>)
    requires
        all_digits(s),
    ensures
        digits_value(s) >= 0,
    decreases s.len(),
{
    if s.len() > 0 {
        assert(all_digits(s.drop_last()));
        lemma_digits_value_nonneg(s.drop_last());
    }
}

/// What a decimal numeral with an optional sign denotes, or `None` where the
/// text is not such a numeral. Matches the grammar of `str::parse` for
/// signed integers, before any range check.
pub open spec fn parse_int_view(s: Seq<char>) -> Option<int> {
    let body = if s.len() > 0 && (s[0] == '+' || s[0] == '-') {
        s.skip(1)
    } else {
        s
    };
    if body.len() == 0 || !all_digits(body) {
        None
    } else if s.len() > 0 && s[0] == '-' {
        Some(-digits_value(body))
    } else {
        Some(digits_value(body))
    }
}

/// Parses a decimal `i32`, accepting exactly the numerals that
/// `parse_int_view` accepts and whose value fits in an `i32`.
pub fn parse_i32(s: &str) -> (r: Option<i32>)
    ensures
        match parse_int_view(s@) {
            Some(v) => if i32::MIN <= v <= i32::MAX {
                r == Some(v as i32)
            } else {
                r is None
            },
            None => r is None,
        },
{
    let n = s.unicode_len();
    if n == 0 {
        return None;
    }
    let c0 = s.get_char(0);
    let neg = c0 == '-';
    let start: usize = if c0 == '-' || c0 == '+' {
        1
    } else {
        0
    };
    let ghost body = if start == 1 {
        s@.skip(1)
    } else {
        s@
    };
    if start == n {
        proof {
            assert(body.len() == 0);
        }
        return None;
    }
    let mut acc: u64 = 0;
    let mut i: usize = start;
    proof {
        assert(s@.subrange(start as int, start as int) =~= Seq::<char>::empty());
    }
    while i < n
        invariant
            start <= i <= n,
            start <= 1,
            n == s@.len(),
            start == 1 <==> (s@[0] == '+' || s@[0] == '-'),
            body == if start == 1 {
                s@.skip(1)
            } else {
                s@
            },
            all_digits(s@.subrange(start as int, i as int)),
            digits_value(s@.subrange(start as int, i as int)) <= 0x8000_0000 ==> acc
                == digits_value(s@.subrange(start as int, i as int)),
            digits_value(s@.subrange(start as int, i as int)) > 0x8000_0000 ==> acc
                == 0x8000_0001,
            acc <= 0x8000_0001,
        decreases n - i,
    {
        let c = s.get_char(i);
        let u = c as u32;
        if u < 0x30 || u > 0x39 {
            proof {
                assert(body[(i - start) as int] == s@[i as int]);
                assert(!is_digit_char(body[(i - start) as int]));
                assert(!all_digits(body));
            }
            return None;
        }
        let d = (u - 0x30) as u64;
        let ghost prefix = s@.subrange(start as int, i as int);
        let ghost longer = s@.subrange(start as int, i + 1);
        proof {
            assert(longer.drop_last() =~= prefix);
            assert(longer.last() == s@[i as int]);
            assert(digits_value(longer) == digits_value(prefix) * 10 + digit_val(s@[i as int]));
            assert(all_digits(longer));
            lemma_digits_value_nonneg(prefix);
        }
        if acc <= 0x8000_0000 {
            let next = acc * 10 + d;
            if next > 0x8000_0000 {
                acc = 0x8000_0001;
            } else {
                acc = next;
            }
        }
        i += 1;
    }
    proof {
        assert(s@.subrange(start as int, n as int) =~= body);
        assert(all_digits(body));
        assert(parse_int_view(s@) == if neg {
            Some(-digits_value(body))
        } else {
            Some(digits_value(body))
        });
        lemma_digits_value_nonneg(body);
    }
    if neg {
        if acc > 0x8000_0000 {
            None
        } else if acc == 0x8000_0000 {
            Some(i32::MIN)
        } else {
            Some(-(acc as i32))
        }
    } else {
        if acc > 0x7FFF_FFFF {
            None
        } else {
            Some(acc as i32)
        }
    }
}

} // verus!
