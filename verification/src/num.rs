//! The engine's numeric values.
//!
//! Submitted numbers and numeric rule bounds are held as fixed-point
//! decimals: an integer count of millionths. Parsing from text follows a
//! plain decimal grammar — optional sign, digits, optional fraction — and
//! nothing beyond it: exponent notation (`1e3`), infinities and
//! non-numbers do not read as numbers, fraction digits beyond the sixth
//! are read but do not contribute to the value, and more than thirty
//! integer digits are rejected. Comparisons are exact integer comparisons
//! of the scaled representation.

use vstd::prelude::*;
use crate::text::{
    all_digits, dec_digits, dec_digits_width, digit_char, digit_val, digits_value, is_digit,
    lemma_digits_value_bounds, lemma_digits_value_step, lemma_pow10_add, lemma_pow10_mono,
    lemma_pow10_pos, lemma_pow10_values, pow10, trim_trailing_zeros, uint_to_string,
    uint_to_string_width,
};
use vstd::string::*;

verus! {

/// Scaled representations count millionths: one unit of value is
/// `SCALE` raw units.
pub const SCALE: i128 = 1_000_000;

/// Index of the first `.` in `s`, if any.
pub open spec fn dot_index(s: Seq<char>) -> Option<int>
    decreases s.len(),
{
    if s.len() == 0 {
        None
    } else if s[0] == '.' {
        Some(0int)
    } else {
        match dot_index(s.drop_first()) {
            Some(i) => Some(i + 1),
            None => None,
        }
    }
}

/// A string without dots has no dot index.
pub proof fn lemma_dot_index_none(s: Seq<char>)
    requires
        forall|k: int| 0 <= k < s.len() ==> s[k] != '.',
    ensures
        dot_index(s) is None,
    decreases s.len(),
{
    if s.len() > 0 {
        assert(forall|k: int| 0 <= k < s.len() - 1 ==> #[trigger] s.drop_first()[k] == s[k + 1]);
        lemma_dot_index_none(s.drop_first());
    }
}

/// The first dot of `s` stands at `j` when `s[j]` is a dot and nothing
/// before it is.
pub proof fn lemma_dot_index_at(s: Seq<char>, j: int)
    requires
        0 <= j < s.len(),
        s[j] == '.',
        forall|k: int| 0 <= k < j ==> s[k] != '.',
    ensures
        dot_index(s) == Some(j),
    decreases s.len(),
{
    if j > 0 {
        assert(forall|k: int| 0 <= k < s.len() - 1 ==> #[trigger] s.drop_first()[k] == s[k + 1]);
        lemma_dot_index_at(s.drop_first(), j - 1);
    }
}

/// Scaled value of a fraction-digit string: the first six digits, padded
/// with zeros on the right up to six.
pub open spec fn frac_scaled(fp: Seq<char>) -> int {
    if fp.len() >= 6 {
        digits_value(fp.subrange(0, 6))
    } else {
        digits_value(fp) * pow10((6 - fp.len()) as nat)
    }
}

/// Scaled value of an unsigned decimal string: digits, optionally followed
/// by a dot and fraction digits, with at least one digit in all and at most
/// thirty integer digits.
pub open spec fn parse_unsigned(t: Seq<char>) -> Option<int> {
    match dot_index(t) {
        None => if 0 < t.len() <= 30 && all_digits(t) {
            Some(digits_value(t) * SCALE)
        } else {
            None
        },
        Some(i) => {
            let ip = t.subrange(0, i);
            let fp = t.subrange(i + 1, t.len() as int);
            if ip.len() + fp.len() > 0 && ip.len() <= 30 && all_digits(ip) && all_digits(fp) {
                Some(digits_value(ip) * SCALE + frac_scaled(fp))
            } else {
                None
            }
        },
    }
}

/// Scaled value of a decimal string with an optional leading sign.
pub open spec fn parse_decimal(s: Seq<char>) -> Option<int> {
    if s.len() > 0 && s[0] == '-' {
        match parse_unsigned(s.drop_first()) {
            Some(v) => Some(-v),
            None => None,
        }
    } else if s.len() > 0 && s[0] == '+' {
        parse_unsigned(s.drop_first())
    } else {
        parse_unsigned(s)
    }
}

/// Decimal rendering of a nonnegative scaled value: the integer part,
/// then a dot and the fraction digits (trailing zeros trimmed) when the
/// fraction is not zero.
pub open spec fn unsigned_number_str(m: int) -> Seq<char> {
    let ip = m / (SCALE as int);
    let fp = m % (SCALE as int);
    if fp == 0 {
        dec_digits(ip as nat)
    } else {
        dec_digits(ip as nat) + seq!['.'] + trim_trailing_zeros(dec_digits_width(fp as nat, 6))
    }
}

/// Decimal rendering of a scaled value, with a leading minus sign when
/// negative.
pub open spec fn number_str(raw: int) -> Seq<char> {
    if raw < 0 {
        seq!['-'] + unsigned_number_str(-raw)
    } else {
        unsigned_number_str(raw)
    }
}

/// A numeric value: a count of millionths, compared exactly.
#[derive(Clone, Copy, PartialEq, Eq, Structural, Debug)]
pub struct Number {
    /// The value scaled by `SCALE`.
    pub raw: i128,
}

impl Number {
    /// The number holding an integer value.
    pub fn from_i64(n: i64) -> (r: Number)
        ensures
            r.raw == n * SCALE,
    {
        Number { raw: (n as i128) * SCALE }
    }

    /// The number holding `raw` millionths.
    pub fn from_raw(raw: i128) -> (r: Number)
        ensures
            r.raw == raw,
    {
        Number { raw }
    }

    /// Renders the value in decimal, trimming trailing fraction zeros.
    #[verifier::loop_isolation(false)]
    pub fn to_decimal_string(&self) -> (r: String)
        ensures
            r@ == number_str(self.raw as int),
    {
        proof {
            lemma_pow10_values();
            reveal_strlit("-");
            reveal_strlit(".");
        }
        let m: u128 = if self.raw < 0 {
            ((-(self.raw + 1)) as u128) + 1
        } else {
            self.raw as u128
        };
        let ip: u128 = m / (SCALE as u128);
        let fp: u128 = m % (SCALE as u128);
        let int_str = uint_to_string(ip);
        let body: String = if fp == 0 {
            int_str
        } else {
            let mut f: u128 = fp;
            let mut w: u8 = 6;
            while f % 10 == 0
                invariant
                    1 <= w <= 6,
                    0 < f < pow10(w as nat),
                    trim_trailing_zeros(dec_digits_width(fp as nat, 6)) == trim_trailing_zeros(
                        dec_digits_width(f as nat, w as nat),
                    ),
                decreases w,
            {
                proof {
                    assert(w >= 2) by {
                        if w == 1 {
                            assert(f < 10);
                        }
                    }
                    assert(dec_digits_width(f as nat, w as nat).drop_last() =~= dec_digits_width(
                        (f / 10) as nat,
                        (w - 1) as nat,
                    ));
                    assert(dec_digits_width(f as nat, w as nat).last() == '0');
                }
                f = f / 10;
                w = w - 1;
            }
            proof {
                assert(dec_digits_width(f as nat, w as nat).last() == digit_char((f % 10) as int));
                assert(digit_char((f % 10) as int) != '0');
                assert(trim_trailing_zeros(dec_digits_width(f as nat, w as nat))
                    == dec_digits_width(f as nat, w as nat));
            }
            let frac_str = uint_to_string_width(f, w);
            let r = int_str.concat(".").concat(frac_str.as_str());
            proof {
                assert(r@ =~= dec_digits(ip as nat) + seq!['.'] + trim_trailing_zeros(
                    dec_digits_width(fp as nat, 6),
                ));
            }
            r
        };
        if self.raw < 0 {
            let r = "-".to_owned().concat(body.as_str());
            proof {
                assert(r@ =~= number_str(self.raw as int));
            }
            r
        } else {
            body
        }
    }

    /// Reads a decimal string, scaled; `None` when the string is not a
    /// plain decimal number (exponent notation is not part of the
    /// grammar).
    pub fn parse(s: &str) -> (r: Option<Number>)
        ensures
            r is Some <==> parse_decimal(s@) is Some,
            r matches Some(n) ==> parse_decimal(s@) == Some(n.raw as int),
    {
        let len = s.unicode_len();
        let mut start: usize = 0;
        let mut neg = false;
        if len > 0 {
            let c0 = s.get_char(0);
            if c0 == '-' {
                neg = true;
                start = 1;
            } else if c0 == '+' {
                start = 1;
            }
        }
        let ghost t = s@.subrange(start as int, len as int);
        proof {
            if start == 1 {
                assert(t =~= s@.drop_first());
            } else {
                assert(t =~= s@);
            }
        }
        match parse_unsigned_exec(s, start, Ghost(t)) {
            None => None,
            Some(v) => {
                let raw: i128 = if neg {
                    -v
                } else {
                    v
                };
                Some(Number { raw })
            },
        }
    }
}

/// True when every character of `s` in `[from, to)` is a digit.
#[verifier::loop_isolation(false)]
fn check_digits(s: &str, from: usize, to: usize) -> (r: bool)
    requires
        from <= to <= s@.len(),
    ensures
        r == all_digits(s@.subrange(from as int, to as int)),
{
    let ghost part = s@.subrange(from as int, to as int);
    let mut i: usize = from;
    while i < to
        invariant
            from <= i <= to,
            forall|m: int| 0 <= m < i - from ==> is_digit(#[trigger] part[m]),
        decreases to - i,
    {
        let u = s.get_char(i) as u32;
        if u < 48 || u > 57 {
            proof {
                assert(!is_digit(part[i - from]));
            }
            return false;
        }
        i = i + 1;
    }
    true
}

/// Value of the digit run in `[from, to)`, read in base ten.
#[verifier::loop_isolation(false)]
fn digits_to_i128(s: &str, from: usize, to: usize) -> (r: i128)
    requires
        from <= to <= s@.len(),
        to - from <= 30,
        all_digits(s@.subrange(from as int, to as int)),
    ensures
        r == digits_value(s@.subrange(from as int, to as int)),
        0 <= r < pow10((to - from) as nat),
{
    let ghost part = s@.subrange(from as int, to as int);
    let mut i: usize = from;
    let mut v: i128 = 0;
    while i < to
        invariant
            from <= i <= to,
            v == digits_value(part.subrange(0, i - from)),
            0 <= v < pow10((i - from) as nat),
        decreases to - i,
    {
        let u = s.get_char(i) as u32;
        proof {
            assert(is_digit(part[i - from]));
            lemma_pow10_values();
            lemma_pow10_mono(((i - from) as nat), 29);
            lemma_pow10_mono(29, 30);
            lemma_digits_value_step(part, i - from);
        }
        v = v * 10 + ((u - 48) as i128);
        i = i + 1;
    }
    proof {
        assert(part.subrange(0, to - from) =~= part);
    }
    v
}

/// Scaled value of the fraction-digit run in `[from, to)`: the first six
/// digits, padded on the right to six.
#[verifier::loop_isolation(false)]
fn frac_to_i128(s: &str, from: usize, to: usize) -> (r: i128)
    requires
        from <= to <= s@.len(),
        all_digits(s@.subrange(from as int, to as int)),
    ensures
        r == frac_scaled(s@.subrange(from as int, to as int)),
        0 <= r < pow10(6),
{
    let ghost part = s@.subrange(from as int, to as int);
    let n: usize = to - from;
    let m: usize = if n <= 6 {
        n
    } else {
        6
    };
    proof {
        assert(part.subrange(0, m as int) =~= s@.subrange(from as int, (from + m) as int));
        assert(forall|k: int|
            0 <= k < m ==> #[trigger] s@.subrange(from as int, (from + m) as int)[k] == part[k]);
    }
    let mut v = digits_to_i128(s, from, from + m);
    proof {
        lemma_pow10_values();
        if n >= 6 {
            assert(part.subrange(0, 6) =~= s@.subrange(from as int, (from + 6) as int));
        } else {
            assert(part =~= s@.subrange(from as int, (from + m) as int));
        }
        lemma_pow10_mono((m as nat), 6);
    }
    // Pad a short fraction out to six digits.
    let mut p: usize = m;
    while p < 6
        invariant
            m <= p <= 6,
            n < 6 ==> v == digits_value(part) * pow10((p - m) as nat),
            n >= 6 ==> v == digits_value(part.subrange(0, 6)) && p == m,
            0 <= v < pow10(p as nat),
        decreases 6 - p,
    {
        proof {
            lemma_pow10_values();
            lemma_pow10_mono((p as nat), 5);
            lemma_pow10_mono(5, 6);
            let a = digits_value(part);
            let b = pow10((p - m) as nat);
            assert(pow10((p + 1 - m) as nat) == 10 * b);
            assert((a * b) * 10 == a * (10 * b)) by (nonlinear_arith);
        }
        v = v * 10;
        p = p + 1;
    }
    proof {
        lemma_pow10_values();
        if n < 6 {
            assert(v == digits_value(part) * pow10((6 - n) as nat));
        }
    }
    v
}

/// Scaled value of the unsigned part of a decimal string, starting at
/// `start`; mirrors `parse_unsigned` on `t`.
#[verifier::loop_isolation(false)]
fn parse_unsigned_exec(s: &str, start: usize, t: Ghost<Seq<char>>) -> (r: Option<i128>)
    requires
        start <= s@.len(),
        t@ == s@.subrange(start as int, s@.len() as int),
    ensures
        r is Some <==> parse_unsigned(t@) is Some,
        r matches Some(v) ==> parse_unsigned(t@) == Some(v as int) && 0 <= v < pow10(37),
{
    let len = s.unicode_len();
    // Find the first dot of the unsigned part.
    let mut j: usize = start;
    let mut found = false;
    while j < len && !found
        invariant
            start <= j <= len,
            forall|k: int| start <= k < j ==> s@[k] != '.',
            found ==> j < len && s@[j as int] == '.',
        decreases len - j, (if found { 0int } else { 1int }),
    {
        if s.get_char(j) == '.' {
            found = true;
        } else {
            j = j + 1;
        }
    }
    proof {
        assert(forall|m: int| 0 <= m < t@.len() ==> t@[m] == s@[start + m]);
        if found {
            lemma_dot_index_at(t@, j - start);
        } else {
            lemma_dot_index_none(t@);
        }
    }
    let ip_end: usize = if found {
        j
    } else {
        len
    };
    let ghost ip = t@.subrange(0, ip_end - start);
    proof {
        if !found {
            assert(ip =~= t@);
        }
        assert(forall|k: int| 0 <= k < ip.len() ==> #[trigger] ip[k] == s@[start + k]);
        assert(ip =~= s@.subrange(start as int, ip_end as int));
    }
    if ip_end - start > 30 {
        return None;
    }
    if !check_digits(s, start, ip_end) {
        return None;
    }
    let ipv = digits_to_i128(s, start, ip_end);
    proof {
        lemma_pow10_values();
        lemma_pow10_mono(((ip_end - start) as nat), 30);
    }
    if !found {
        if len == start {
            return None;
        }
        let v: i128 = ipv * SCALE;
        proof {
            lemma_pow10_values();
            lemma_pow10_add(30, 6);
            lemma_pow10_mono(36, 37);
            vstd::arithmetic::mul::lemma_mul_inequality(ipv as int, pow10(30), SCALE as int);
        }
        return Some(v);
    }
    // Fraction digits, after the dot.
    let ghost fp = t@.subrange(j + 1 - start, t@.len() as int);
    proof {
        assert(forall|k: int| 0 <= k < fp.len() ==> #[trigger] fp[k] == s@[j + 1 + k]);
        assert(fp =~= s@.subrange((j + 1) as int, len as int));
    }
    if ip_end == start && len == j + 1 {
        return None;
    }
    if !check_digits(s, j + 1, len) {
        return None;
    }
    let fv = frac_to_i128(s, j + 1, len);
    proof {
        lemma_pow10_values();
        lemma_pow10_add(30, 6);
        lemma_pow10_mono(36, 37);
        vstd::arithmetic::mul::lemma_mul_inequality(ipv as int, pow10(30), SCALE as int);
    }
    Some(ipv * SCALE + fv)
}

} // verus!
