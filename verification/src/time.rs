use vstd::prelude::*;
use vstd::string::*;

verus! {

/// Whether `c` is an ASCII decimal digit.
pub open spec fn is_dec_digit(c: char) -> bool {
    48 <= c as u32 <= 57
}

/// Numeric value of the ASCII digit `c`.
pub open spec fn dec_digit_of(c: char) -> int {
    c as u32 - 48
}

pub open spec fn all_dec_digits(s: Seq<char>) -> bool {
    forall|i: int| 0 <= i < s.len() ==> is_dec_digit(#[trigger] s[i])
}

/// Value of a sequence of decimal digit characters, most significant first.
pub open spec fn dec_value(s: Seq<char>) -> int
    decreases s.len(),
{
    if s.len() == 0 {
        0
    } else {
        dec_value(s.drop_last()) * 10 + dec_digit_of(s.last())
    }
}

pub proof fn lemma_dec_value_nonneg(s: Seq<char>)
    requires
        all_dec_digits(s),
    ensures
        dec_value(s) >= 0,
    decreases s.len(),
{
    if s.len() > 0 {
        assert(all_dec_digits(s.drop_last()));
        lemma_dec_value_nonneg(s.drop_last());
    }
}

/// Extending a digit string on the right never shrinks its value.
pub proof fn lemma_dec_value_prefix(s: Seq<char>, t: Seq<char>)
    requires
        all_dec_digits(s),
        all_dec_digits(t),
    ensures
        dec_value(s + t) >= dec_value(s),
    decreases t.len(),
{
    if t.len() == 0 {
        assert(s + t =~= s);
    } else {
        assert(s + t.drop_last() =~= (s + t).drop_last());
        assert(all_dec_digits(t.drop_last()));
        lemma_dec_value_prefix(s, t.drop_last());
        lemma_dec_value_nonneg(s);
        assert((s + t).last() == t.last());
    }
}

/// The value of a non-empty all-digit string, when it fits in a `u64`.
pub open spec fn spec_parse_u64(s: Seq<char>) -> Option<u64> {
    if s.len() > 0 && all_dec_digits(s) && dec_value(s) <= u64::MAX {
        Some(dec_value(s) as u64)
    } else {
        None
    }
}

/// Milliseconds in one interval unit letter, if the letter is known.
pub open spec fn spec_unit_millis(c: char) -> Option<u64> {
    if c == 's' || c == 'S' {
        Some(1_000u64)
    } else if c == 'm' || c == 'M' {
        Some(60_000u64)
    } else if c == 'h' || c == 'H' {
        Some(3_600_000u64)
    } else if c == 'd' || c == 'D' {
        Some(86_400_000u64)
    } else {
        None
    }
}

/// Product of two `u64` values, saturating at `u64::MAX`.
pub open spec fn spec_saturating_mul(a: u64, b: u64) -> u64 {
    if a * b > u64::MAX {
        u64::MAX
    } else {
        (a * b) as u64
    }
}

/// Length in milliseconds of an interval written as digits followed by one
/// unit letter (seconds, minutes, hours or days), saturating at `u64::MAX`;
/// nothing when the text has any other shape.
pub open spec fn spec_interval_to_millis(s: Seq<char>) -> Option<u64> {
    if s.len() == 0 {
        None
    } else {
        match spec_unit_millis(s.last()) {
            Some(mult) => match spec_parse_u64(s.drop_last()) {
                Some(v) => Some(spec_saturating_mul(v, mult)),
                None => None,
            },
            None => None,
        }
    }
}

/// For a positive divisor, exceeding the rounded-down quotient is the same
/// as the product exceeding the bound.
proof fn lemma_div_guard(a: int, m: int, b: int)
    requires
        b >= 1,
        m >= 0,
        a >= 0,
    ensures
        (a > m / b) <==> (a * b > m),
{
    vstd::arithmetic::div_mod::lemma_fundamental_div_mod(m, b);
    vstd::arithmetic::div_mod::lemma_mod_division_less_than_divisor(m, b);
    vstd::arithmetic::div_mod::lemma_div_pos_is_pos(m, b);
    let q = m / b;
    let r = m % b;
    assert(0 <= r < b);
    if a > q {
        assert(a * b > m) by (nonlinear_arith)
            requires
                m == b * q + r,
                r < b,
                a > q,
                b >= 1,
        ;
    } else {
        assert(a * b <= m) by (nonlinear_arith)
            requires
                m == b * q + r,
                r >= 0,
                a <= q,
                a >= 0,
                b >= 1,
        ;
    }
}

/// Parses the first `end` characters of `s` as a `u64`.
fn parse_u64_prefix(s: &str, end: usize) -> (r: Option<u64>)
    requires
        end <= s@.len(),
    ensures
        r == spec_parse_u64(s@.subrange(0, end as int)),
{
    let ghost whole = s@.subrange(0, end as int);
    if end == 0 {
        return None;
    }
    let mut acc: u64 = 0;
    let mut i: usize = 0;
    while i < end
        invariant
            i <= end <= s@.len(),
            whole == s@.subrange(0, end as int),
            all_dec_digits(s@.subrange(0, i as int)),
            acc == dec_value(s@.subrange(0, i as int)),
        decreases end - i,
    {
        let c = s.get_char(i);
        let cv: u32 = c as u32;
        proof {
            assert(s@.subrange(0, i as int + 1).drop_last() =~= s@.subrange(0, i as int));
            assert(s@.subrange(0, i as int + 1).last() == s@[i as int]);
        }
        if cv < 48 || cv > 57 {
            proof {
                assert(whole[i as int] == s@[i as int]);
                assert(s@[i as int] == c);
                assert(!is_dec_digit(c));
                assert(!all_dec_digits(whole));
            }
            return None;
        }
        let d: u64 = (cv - 48) as u64;
        if acc > (u64::MAX - d) / 10 {
            proof {
                lemma_div_guard(acc as int, (u64::MAX - d) as int, 10);
                let grown = s@.subrange(0, i as int + 1);
                assert(dec_value(grown) > u64::MAX);
                if all_dec_digits(whole) {
                    assert(grown + whole.subrange(i as int + 1, end as int) =~= whole);
                    assert(all_dec_digits(grown));
                    assert(all_dec_digits(whole.subrange(i as int + 1, end as int)));
                    lemma_dec_value_prefix(grown, whole.subrange(i as int + 1, end as int));
                }
            }
            return None;
        }
        proof {
            lemma_div_guard(acc as int, (u64::MAX - d) as int, 10);
        }
        acc = acc * 10 + d;
        i = i + 1;
    }
    proof {
        assert(s@.subrange(0, end as int) =~= whole);
    }
    Some(acc)
}

/// Parses an interval such as a count of seconds, minutes, hours or days
/// (digits followed by one unit letter) into milliseconds, saturating at
/// `u64::MAX`.  Any other shape yields nothing.
pub fn interval_to_millis(interval: &str) -> (r: Option<u64>)
    ensures
        r == spec_interval_to_millis(interval@),
{
    let n = interval.unicode_len();
    if n == 0 {
        return None;
    }
    let unit = interval.get_char(n - 1);
    let mult: u64 = if unit == 's' || unit == 'S' {
        1_000
    } else if unit == 'm' || unit == 'M' {
        60_000
    } else if unit == 'h' || unit == 'H' {
        3_600_000
    } else if unit == 'd' || unit == 'D' {
        86_400_000
    } else {
        return None;
    };
    let value = match parse_u64_prefix(interval, n - 1) {
        Some(v) => v,
        None => {
            proof {
                assert(interval@.subrange(0, n as int - 1) =~= interval@.drop_last());
            }
            return None;
        },
    };
    proof {
        assert(interval@.subrange(0, n as int - 1) =~= interval@.drop_last());
        lemma_div_guard(value as int, u64::MAX as int, mult as int);
    }
    if value > u64::MAX / mult {
        Some(u64::MAX)
    } else {
        Some(value * mult)
    }
}

} // verus!
