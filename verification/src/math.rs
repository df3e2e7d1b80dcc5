use vstd::prelude::*;
use vstd::string::*;

verus! {

/// An arithmetic mean held exactly: the sum of the observations and how many
/// there are.  The mean is the rational `sum / count`; keeping the pair
/// avoids any rounding before a comparison is made.
#[derive(Debug, Clone, Copy, PartialEq, Eq, Structural)]
pub struct MeanValue {
    pub sum: i128,
    pub count: usize,
}

/// Sum of a sequence of fixed-point observations, as an unbounded integer.
pub open spec fn sum_of(s: Seq<i64>) -> int
    decreases s.len(),
{
    if s.len() == 0 {
        0
    } else {
        sum_of(s.drop_last()) + s.last()
    }
}

/// Every sum of `i64` values is bounded by the count of values times the
/// extreme `i64` magnitudes.
pub proof fn lemma_sum_of_bound(s: Seq<i64>)
    ensures
        -(s.len() * 0x8000_0000_0000_0000) <= sum_of(s),
        sum_of(s) <= s.len() * 0x7fff_ffff_ffff_ffff,
    decreases s.len(),
{
    if s.len() > 0 {
        lemma_sum_of_bound(s.drop_last());
    }
}

/// Mean of a full window, or nothing when the window is empty.
pub fn simple_moving_average(window: &[i64]) -> (r: Option<MeanValue>)
    ensures
        r is Some <==> window@.len() > 0,
        r matches Some(m) ==> m.sum == sum_of(window@) && m.count == window@.len(),
{
    if window.len() == 0 {
        return None;
    }
    let mut acc: i128 = 0;
    let mut i: usize = 0;
    while i < window.len()
        invariant
            i <= window@.len(),
            acc == sum_of(window@.subrange(0, i as int)),
        decreases window@.len() - i,
    {
        proof {
            lemma_sum_of_bound(window@.subrange(0, i as int));
            lemma_sum_of_bound(window@.subrange(0, i as int + 1));
            assert(window@.subrange(0, i as int + 1).drop_last() =~= window@.subrange(0, i as int));
            assert(window@.subrange(0, i as int + 1).last() == window@[i as int]);
        }
        acc = acc + window[i] as i128;
        i = i + 1;
    }
    proof {
        assert(window@.subrange(0, window@.len() as int) =~= window@);
    }
    Some(MeanValue { sum: acc, count: window.len() })
}

/// The character for one decimal digit.
pub open spec fn digit_char(d: int) -> char {
    if d == 0 {
        '0'
    } else if d == 1 {
        '1'
    } else if d == 2 {
        '2'
    } else if d == 3 {
        '3'
    } else if d == 4 {
        '4'
    } else if d == 5 {
        '5'
    } else if d == 6 {
        '6'
    } else if d == 7 {
        '7'
    } else if d == 8 {
        '8'
    } else {
        '9'
    }
}

/// Decimal digits of `n`, most significant first, without leading zeros
/// (a lone zero for `n == 0`).
pub open spec fn spec_digits(n: int) -> Seq<char>
    decreases n,
{
    if n < 10 {
        seq![digit_char(n)]
    } else {
        spec_digits(n / 10).push(digit_char(n % 10))
    }
}

/// The `k` least significant decimal digits of `f`, zero padded.
pub open spec fn spec_padded_digits(f: int, k: nat) -> Seq<char>
    decreases k,
{
    if k == 0 {
        Seq::empty()
    } else {
        spec_padded_digits(f / 10, (k - 1) as nat).push(digit_char(f % 10))
    }
}

/// `s` with every trailing `'0'` removed.
pub open spec fn strip_trailing_zeros(s: Seq<char>) -> Seq<char>
    decreases s.len(),
{
    if s.len() > 0 && s.last() == '0' {
        strip_trailing_zeros(s.drop_last())
    } else {
        s
    }
}

/// Canonical decimal rendering of the fixed-point value `v` (in units of
/// `10^-8`): a minus sign for negative values, the whole part without
/// leading zeros, and the fractional part with trailing zeros removed and
/// omitted entirely when zero.
pub open spec fn spec_decimal(v: int) -> Seq<char> {
    if v == 0 {
        seq!['0']
    } else {
        let m = if v < 0 {
            -v
        } else {
            v
        };
        let sign: Seq<char> = if v < 0 {
            seq!['-']
        } else {
            Seq::empty()
        };
        let whole = spec_digits(m / 100_000_000);
        if m % 100_000_000 == 0 {
            sign + whole
        } else {
            sign + whole + seq!['.'] + strip_trailing_zeros(
                spec_padded_digits(m % 100_000_000, 8),
            )
        }
    }
}

/// Appends the character of the digit `d` to `out`.
fn push_digit(out: &mut String, d: u64)
    requires
        d < 10,
    ensures
        final(out)@ == old(out)@ + seq![digit_char(d as int)],
{
    proof {
        reveal_strlit("0");
        reveal_strlit("1");
        reveal_strlit("2");
        reveal_strlit("3");
        reveal_strlit("4");
        reveal_strlit("5");
        reveal_strlit("6");
        reveal_strlit("7");
        reveal_strlit("8");
        reveal_strlit("9");
    }
    if d == 0 {
        out.append("0");
    } else if d == 1 {
        out.append("1");
    } else if d == 2 {
        out.append("2");
    } else if d == 3 {
        out.append("3");
    } else if d == 4 {
        out.append("4");
    } else if d == 5 {
        out.append("5");
    } else if d == 6 {
        out.append("6");
    } else if d == 7 {
        out.append("7");
    } else if d == 8 {
        out.append("8");
    } else {
        out.append("9");
    }
    proof {
        assert(out@ =~= old(out)@ + seq![digit_char(d as int)]);
    }
}

/// Appends the decimal digits of `n`, most significant first.
fn push_number(out: &mut String, n: u64)
    ensures
        final(out)@ == old(out)@ + spec_digits(n as int),
    decreases n,
{
    if n >= 10 {
        push_number(out, n / 10);
        push_digit(out, n % 10);
        proof {
            assert(out@ =~= old(out)@ + spec_digits(n as int));
        }
    } else {
        push_digit(out, n);
    }
}

/// Appends the `k` least significant decimal digits of `f`, zero padded.
fn push_padded(out: &mut String, f: u64, k: u64)
    requires
        k >= 1,
    ensures
        final(out)@ == old(out)@ + spec_padded_digits(f as int, k as nat),
    decreases k,
{
    if k > 1 {
        push_padded(out, f / 10, k - 1);
        push_digit(out, f % 10);
        proof {
            assert(out@ =~= old(out)@ + spec_padded_digits(f as int, k as nat));
        }
    } else {
        push_digit(out, f % 10);
        proof {
            reveal_with_fuel(spec_padded_digits, 2);
            assert(spec_padded_digits(f as int, 1) =~= seq![digit_char(f as int % 10)]);
        }
    }
}

/// Ten to the `k`.
pub open spec fn pow10(k: nat) -> int
    decreases k,
{
    if k == 0 {
        1
    } else {
        10 * pow10((k - 1) as nat)
    }
}

proof fn lemma_div10_bound(f: int, k: nat)
    requires
        k >= 1,
        0 <= f,
        f < pow10(k),
    ensures
        f / 10 < pow10((k - 1) as nat),
        0 <= f / 10,
{
    vstd::arithmetic::div_mod::lemma_fundamental_div_mod(f, 10);
    assert(pow10(k) == 10 * pow10((k - 1) as nat));
}

/// Dropping a trailing zero digit of a padded rendering keeps the stripped
/// form.
proof fn lemma_padded_drop_zero(f: int, k: nat)
    requires
        k >= 1,
        f % 10 == 0,
        f >= 0,
    ensures
        strip_trailing_zeros(spec_padded_digits(f, k)) == strip_trailing_zeros(
            spec_padded_digits(f / 10, (k - 1) as nat),
        ),
{
    assert(spec_padded_digits(f, k).last() == digit_char(f % 10));
    assert(spec_padded_digits(f, k).drop_last() =~= spec_padded_digits(f / 10, (k - 1) as nat));
}

/// A padded rendering whose last digit is not zero is already stripped.
proof fn lemma_padded_last_nonzero(f: int, k: nat)
    requires
        k >= 1,
        f >= 0,
        f % 10 != 0,
    ensures
        strip_trailing_zeros(spec_padded_digits(f, k)) == spec_padded_digits(f, k),
{
    assert(spec_padded_digits(f, k).last() == digit_char(f % 10));
    assert(digit_char(f % 10) != '0');
}

/// Renders a fixed-point value (units of `10^-8`) as its canonical decimal
/// string: at most eight fractional digits and no trailing zeros.
pub fn format_decimal(value: i64) -> (r: String)
    ensures
        r@ == spec_decimal(value as int),
{
    if value == 0 {
        let r = String::from_str("0");
        proof {
            reveal_strlit("0");
            assert(r@ =~= spec_decimal(0));
        }
        return r;
    }
    let mut out = String::new();
    if value < 0 {
        out.append("-");
        proof {
            reveal_strlit("-");
            assert(out@ =~= seq!['-']);
        }
    }
    let wide: i128 = value as i128;
    let mag: u64 = if wide >= 0 {
        wide as u64
    } else {
        (-wide) as u64
    };
    let whole: u64 = mag / 100_000_000;
    let frac: u64 = mag % 100_000_000;
    push_number(&mut out, whole);
    if frac != 0 {
        out.append(".");
        proof {
            reveal_strlit(".");
        }
        let ghost full = spec_padded_digits(frac as int, 8);
        let mut fr: u64 = frac;
        let mut k: u64 = 8;
        proof {
            reveal_with_fuel(pow10, 9);
            assert(pow10(8) == 100_000_000);
        }
        while fr % 10 == 0
            invariant
                1 <= k <= 8,
                fr != 0,
                fr < pow10(k as nat),
                strip_trailing_zeros(spec_padded_digits(fr as int, k as nat))
                    == strip_trailing_zeros(full),
            decreases k,
        {
            proof {
                reveal_with_fuel(pow10, 2);
                if k == 1 {
                    assert(fr % 10 == fr);
                    assert(false);
                }
                lemma_padded_drop_zero(fr as int, k as nat);
                lemma_div10_bound(fr as int, k as nat);
                vstd::arithmetic::div_mod::lemma_fundamental_div_mod(fr as int, 10);
            }
            fr = fr / 10;
            k = k - 1;
        }
        proof {
            lemma_padded_last_nonzero(fr as int, k as nat);
        }
        push_padded(&mut out, fr, k);
    }
    proof {
        assert(out@ =~= spec_decimal(value as int));
    }
    out
}

} // verus!
