//! Character and string utilities shared by the engine: digit handling,
//! decimal rendering of integers, and equality of strings.

use vstd::prelude::*;
use vstd::string::*;

verus! {

/// True for the ten ASCII digit characters.
pub open spec fn is_digit(c: char) -> bool {
    '0' <= c && c <= '9'
}

/// The character for one decimal digit value (0 through 9).
pub open spec fn digit_char(d: int) -> char {
    ('0' as int + d) as char
}

/// Numeric value of one ASCII digit character.
pub open spec fn digit_val(c: char) -> int {
    c as int - '0' as int
}

/// True when every character of `s` is an ASCII digit.
pub open spec fn all_digits(s: Seq<char>) -> bool {
    forall|i: int| 0 <= i < s.len() ==> is_digit(#[trigger] s[i])
}

/// Value of a digit string read in base ten (empty string reads as zero).
pub open spec fn digits_value(s: Seq<char>) -> int
    decreases s.len(),
{
    if s.len() == 0 {
        0
    } else {
        digits_value(s.drop_last()) * 10 + digit_val(s.last())
    }
}

/// Ten to the power `k`.
pub open spec fn pow10(k: nat) -> int
    decreases k,
{
    if k == 0 {
        1
    } else {
        10 * pow10((k - 1) as nat)
    }
}

/// Powers of ten are positive.
pub proof fn lemma_pow10_pos(k: nat)
    ensures
        pow10(k) >= 1,
    decreases k,
{
    if k > 0 {
        lemma_pow10_pos((k - 1) as nat);
    }
}

/// Powers of ten multiply by adding exponents.
pub proof fn lemma_pow10_add(a: nat, b: nat)
    ensures
        pow10(a + b) == pow10(a) * pow10(b),
    decreases a,
{
    if a > 0 {
        lemma_pow10_add((a - 1) as nat, b);
        assert(pow10(a + b) == 10 * pow10((a + b - 1) as nat));
        assert(pow10(a) == 10 * pow10((a - 1) as nat));
        assert(10 * (pow10((a - 1) as nat) * pow10(b)) == (10 * pow10((a - 1) as nat)) * pow10(
            b,
        )) by (nonlinear_arith);
    }
}

/// Powers of ten grow with the exponent.
pub proof fn lemma_pow10_mono(a: nat, b: nat)
    requires
        a <= b,
    ensures
        pow10(a) <= pow10(b),
{
    lemma_pow10_add(a, (b - a) as nat);
    lemma_pow10_pos(a);
    lemma_pow10_pos((b - a) as nat);
    vstd::arithmetic::mul::lemma_mul_inequality(1, pow10((b - a) as nat), pow10(a));
}

/// Concrete powers of ten that the overflow arguments lean on.
pub proof fn lemma_pow10_values()
    ensures
        pow10(0) == 1,
        pow10(1) == 10,
        pow10(6) == 1_000_000,
        pow10(30) == 1_000_000_000_000_000_000_000_000_000_000,
{
    reveal_with_fuel(pow10, 32);
}

/// A digit string's value is bounded by ten to its length.
pub proof fn lemma_digits_value_bounds(s: Seq<char>)
    requires
        all_digits(s),
    ensures
        0 <= digits_value(s) < pow10(s.len()),
    decreases s.len(),
{
    if s.len() > 0 {
        assert(all_digits(s.drop_last())) by {
            assert(forall|i: int|
                0 <= i < s.len() - 1 ==> is_digit(#[trigger] s.drop_last()[i]) == is_digit(s[i]));
        }
        lemma_digits_value_bounds(s.drop_last());
        assert(is_digit(s.last()));
    }
}

/// Reading one more digit multiplies the value by ten and adds that digit.
pub proof fn lemma_digits_value_step(s: Seq<char>, i: int)
    requires
        0 <= i < s.len(),
    ensures
        digits_value(s.subrange(0, i + 1)) == digits_value(s.subrange(0, i)) * 10 + digit_val(
            s[i],
        ),
{
    assert(s.subrange(0, i + 1).drop_last() =~= s.subrange(0, i));
    assert(s.subrange(0, i + 1).last() == s[i]);
}

/// Decimal digits of `n`, most significant first, no leading zeros.
pub open spec fn dec_digits(n: nat) -> Seq<char>
    decreases n,
{
    if n < 10 {
        seq![digit_char(n as int)]
    } else {
        dec_digits(n / 10).push(digit_char((n % 10) as int))
    }
}

/// Exactly `w` decimal digits of `n`, leading zeros kept (the lowest `w`
/// digits of `n`).
pub open spec fn dec_digits_width(n: nat, w: nat) -> Seq<char>
    decreases w,
{
    if w == 0 {
        Seq::empty()
    } else {
        dec_digits_width(n / 10, (w - 1) as nat).push(digit_char((n % 10) as int))
    }
}

/// `s` with every trailing zero character removed.
pub open spec fn trim_trailing_zeros(s: Seq<char>) -> Seq<char>
    decreases s.len(),
{
    if s.len() > 0 && s.last() == '0' {
        trim_trailing_zeros(s.drop_last())
    } else {
        s
    }
}

/// Returns the one-character string for a decimal digit.
fn digit_str(d: u8) -> (r: &'static str)
    requires
        d < 10,
    ensures
        r@ =~= seq![digit_char(d as int)],
{
    proof {
        reveal_strlit("0");
        reveal_strlit("1");
        reveal_strlit("2");
        reveal_strlit("3");
        reveal_strlit("4");
        reveal_strlit("5");
        reveal_strlit("6");
        reveal_strlit("7");
        reveal_strlit("8");
        reveal_strlit("9");
    }
    match d {
        0 => "0",
        1 => "1",
        2 => "2",
        3 => "3",
        4 => "4",
        5 => "5",
        6 => "6",
        7 => "7",
        8 => "8",
        _ => "9",
    }
}

/// Renders `n` in decimal, without leading zeros.
pub fn uint_to_string(n: u128) -> (r: String)
    ensures
        r@ == dec_digits(n as nat),
    decreases n,
{
    if n < 10 {
        digit_str(n as u8).to_owned()
    } else {
        let prefix = uint_to_string(n / 10);
        let r = prefix.concat(digit_str((n % 10) as u8));
        proof {
            assert(r@ =~= dec_digits(n as nat));
        }
        r
    }
}

/// Renders the lowest `w` decimal digits of `n`, leading zeros kept.
pub fn uint_to_string_width(n: u128, w: u8) -> (r: String)
    ensures
        r@ == dec_digits_width(n as nat, w as nat),
    decreases w,
{
    if w == 0 {
        let r = String::new();
        proof {
            assert(r@ =~= dec_digits_width(n as nat, 0));
        }
        r
    } else {
        let prefix = uint_to_string_width(n / 10, w - 1);
        let r = prefix.concat(digit_str((n % 10) as u8));
        proof {
            assert(r@ =~= dec_digits_width(n as nat, w as nat));
        }
        r
    }
}

/// ASCII lowercasing of one character.
pub open spec fn lower_char(c: char) -> char {
    if 'A' <= c && c <= 'Z' {
        ((c as int) + 32) as char
    } else {
        c
    }
}

/// ASCII lowercasing of a character sequence.
pub open spec fn ascii_lower(s: Seq<char>) -> Seq<char> {
    s.map_values(|c: char| lower_char(c))
}

/// ASCII lowercasing of one character.
fn lower_char_exec(c: char) -> (r: char)
    ensures
        r == lower_char(c),
{
    let u = c as u32;
    if u >= 65 && u <= 90 {
        (((c as u8) + 32) as char)
    } else {
        c
    }
}

/// True when the two strings are equal after ASCII lowercasing.
pub fn eq_ascii_ci(s: &str, t: &str) -> (r: bool)
    ensures
        r == (ascii_lower(s@) == ascii_lower(t@)),
{
    let slen = s.unicode_len();
    let tlen = t.unicode_len();
    if slen != tlen {
        proof {
            assert(ascii_lower(s@).len() == s@.len());
            assert(ascii_lower(t@).len() == t@.len());
        }
        return false;
    }
    let mut i: usize = 0;
    while i < slen
        invariant
            0 <= i <= slen,
            slen == s@.len(),
            slen == t@.len(),
            forall|j: int| 0 <= j < i ==> lower_char(s@[j]) == lower_char(t@[j]),
        decreases slen - i,
    {
        let a = lower_char_exec(s.get_char(i));
        let b = lower_char_exec(t.get_char(i));
        if a != b {
            proof {
                assert(ascii_lower(s@)[i as int] != ascii_lower(t@)[i as int]);
            }
            return false;
        }
        i = i + 1;
    }
    proof {
        assert(ascii_lower(s@) =~= ascii_lower(t@));
    }
    true
}

/// True when a CSV cell must be quoted: it holds a comma, a quote, or a
/// newline.
pub open spec fn needs_csv_quoting(s: Seq<char>) -> bool {
    exists|i: int| 0 <= i < s.len() && ((#[trigger] s[i]) == ',' || s[i] == '"' || s[i] == '\n')
}

/// The cell text with every quote doubled.
pub open spec fn csv_doubled(s: Seq<char>) -> Seq<char>
    decreases s.len(),
{
    if s.len() == 0 {
        Seq::empty()
    } else {
        csv_doubled(s.drop_last()) + (if s.last() == '"' {
            seq!['"', '"']
        } else {
            seq![s.last()]
        })
    }
}

/// CSV escaping: a cell that needs quoting is wrapped in quotes with its
/// quotes doubled; any other cell is left as it stands.
pub open spec fn csv_escape(s: Seq<char>) -> Seq<char> {
    if needs_csv_quoting(s) {
        seq!['"'] + csv_doubled(s) + seq!['"']
    } else {
        s
    }
}

/// Escapes a string for use as a CSV cell.
#[verifier::loop_isolation(false)]
pub fn escape_csv(s: &str) -> (r: String)
    ensures
        r@ == csv_escape(s@),
{
    let len = s.unicode_len();
    let mut i: usize = 0;
    let mut needs = false;
    while i < len
        invariant
            0 <= i <= len,
            needs == needs_csv_quoting(s@.subrange(0, i as int)),
        decreases len - i,
    {
        let c = s.get_char(i);
        proof {
            assert(forall|j: int| 0 <= j < i ==> s@.subrange(0, i + 1)[j] == s@.subrange(
                0,
                i as int,
            )[j]);
            assert(s@.subrange(0, i + 1)[i as int] == s@[i as int]);
        }
        if c == ',' || c == '"' || c == '\n' {
            needs = true;
        }
        proof {
            let cc = s@[i as int];
            if !needs_csv_quoting(s@.subrange(0, i as int)) && !(cc == ',' || cc == '"' || cc
                == '\n') {
                assert forall|j: int|
                    !(0 <= j < i + 1 && ((#[trigger] s@.subrange(0, i + 1)[j]) == ',' || s@.subrange(
                        0,
                        i + 1,
                    )[j] == '"' || s@.subrange(0, i + 1)[j] == '\n')) by {
                    if 0 <= j < i {
                        assert(s@.subrange(0, i as int)[j] == s@.subrange(0, i + 1)[j]);
                    }
                }
            }
        }
        i = i + 1;
    }
    proof {
        assert(s@.subrange(0, len as int) =~= s@);
    }
    if !needs {
        return s.to_owned();
    }
    proof {
        reveal_strlit("\"");
        reveal_strlit("\"\"");
    }
    let mut out = String::new();
    out.append("\"");
    let ghost quote = seq!['"'];
    let mut k: usize = 0;
    while k < len
        invariant
            0 <= k <= len,
            out@ == quote + csv_doubled(s@.subrange(0, k as int)),
        decreases len - k,
    {
        let c = s.get_char(k);
        if c == '"' {
            out.append("\"\"");
        } else {
            let piece = s.substring_char(k, k + 1);
            proof {
                assert(piece@ =~= seq![s@[k as int]]);
            }
            out.append(piece);
        }
        proof {
            assert(s@.subrange(0, k + 1).drop_last() =~= s@.subrange(0, k as int));
            assert(s@.subrange(0, k + 1).last() == s@[k as int]);
            assert(out@ =~= quote + csv_doubled(s@.subrange(0, k + 1)));
        }
        k = k + 1;
    }
    out.append("\"");
    proof {
        assert(s@.subrange(0, len as int) =~= s@);
        assert(out@ =~= csv_escape(s@));
    }
    out
}

/// Shortens a string to at most `max_len` characters, marking the cut
/// with an ellipsis.
pub fn truncate(s: &str, max_len: usize) -> (r: String)
    requires
        max_len >= 3,
    ensures
        s@.len() <= max_len ==> r@ == s@,
        s@.len() > max_len ==> r@ == s@.subrange(0, max_len - 3) + "..."@,
{
    let len = s.unicode_len();
    if len <= max_len {
        s.to_owned()
    } else {
        let head = s.substring_char(0, max_len - 3);
        head.to_owned().concat("...")
    }
}

/// True when the two strings hold the same characters.
pub fn str_eq(a: &str, b: &str) -> (r: bool)
    ensures
        r == (a@ == b@),
{
    let alen = a.unicode_len();
    let blen = b.unicode_len();
    if alen != blen {
        return false;
    }
    let mut i: usize = 0;
    while i < alen
        invariant
            alen == a@.len(),
            alen == b@.len(),
            0 <= i <= alen,
            forall|j: int| 0 <= j < i ==> a@[j] == b@[j],
        decreases alen - i,
    {
        if a.get_char(i) != b.get_char(i) {
            return false;
        }
        i = i + 1;
    }
    proof {
        assert(a@ =~= b@);
    }
    true
}

} // verus!
