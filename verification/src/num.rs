//! Integer text: parsing as `str::parse` / `from_str_radix` document it, and
//! formatting as `Display`, `{:o}` and `{:08x}` print it.
use vstd::prelude::*;
use crate::text::{chars_of, owned, string_of};

verus! {

/// Why a string is not an integer (`core::num::IntErrorKind`).
#[derive(Clone, Copy, Debug, PartialEq, Eq, Structural)]
pub enum IntErrorKind {
    Empty,
    InvalidDigit,
    PosOverflow,
    NegOverflow,
}

/// The value of digit `c` in `radix` (`char::to_digit` for radix up to ten).
pub open spec fn digit_value(c: char, radix: nat) -> Option<nat> {
    let n = c as u32;
    if 0x30 <= n <= 0x39 && (n - 0x30) < radix {
        Some((n - 0x30) as nat)
    } else {
        None
    }
}

/// The digits from `i` on, added to `acc`, each checked for validity and then for range.
pub open spec fn digits_value(
    s: Seq<char>,
    i: int,
    acc: int,
    radix: nat,
    neg: bool,
    lo: int,
    hi: int,
) -> Result<int, IntErrorKind>
    decreases s.len() - i,
{
    if i < 0 || i >= s.len() {
        Ok(acc)
    } else {
        match digit_value(s[i], radix) {
            None => Err(IntErrorKind::InvalidDigit),
            Some(d) => {
                let next = if neg {
                    acc * radix - d
                } else {
                    acc * radix + d
                };
                if next > hi {
                    Err(IntErrorKind::PosOverflow)
                } else if next < lo {
                    Err(IntErrorKind::NegOverflow)
                } else {
                    digits_value(s, i + 1, next, radix, neg, lo, hi)
                }
            },
        }
    }
}

/// `from_str_radix` for an integer type whose values are `lo..=hi`: an optional `+`
/// (or `-` where the type has negative values) and then digits only.
pub open spec fn parse_int(s: Seq<char>, radix: nat, lo: int, hi: int) -> Result<int, IntErrorKind> {
    if s.len() == 0 {
        Err(IntErrorKind::Empty)
    } else if (s[0] == '+' || s[0] == '-') && s.len() == 1 {
        Err(IntErrorKind::InvalidDigit)
    } else if s[0] == '+' {
        digits_value(s, 1, 0, radix, false, lo, hi)
    } else if s[0] == '-' && lo < 0 {
        digits_value(s, 1, 0, radix, true, lo, hi)
    } else {
        digits_value(s, 0, 0, radix, false, lo, hi)
    }
}

/// Digits read into a value that starts in range stay in range.
pub proof fn lemma_digits_value_range(
    s: Seq<char>,
    i: int,
    acc: int,
    radix: nat,
    neg: bool,
    lo: int,
    hi: int,
)
    requires
        lo <= acc <= hi,
    ensures
        digits_value(s, i, acc, radix, neg, lo, hi) matches Ok(n) ==> lo <= n <= hi,
    decreases s.len() - i,
{
    if 0 <= i < s.len() {
        if let Some(d) = digit_value(s[i], radix) {
            let next = if neg {
                acc * radix - d
            } else {
                acc * radix + d
            };
            if lo <= next <= hi {
                lemma_digits_value_range(s, i + 1, next, radix, neg, lo, hi);
            }
        }
    }
}

/// A parsed value lies in the target range.
pub proof fn lemma_parse_int_range(s: Seq<char>, radix: nat, lo: int, hi: int)
    requires
        lo <= 0 <= hi,
    ensures
        parse_int(s, radix, lo, hi) matches Ok(n) ==> lo <= n <= hi,
{
    lemma_digits_value_range(s, 0, 0, radix, false, lo, hi);
    lemma_digits_value_range(s, 1, 0, radix, false, lo, hi);
    lemma_digits_value_range(s, 1, 0, radix, true, lo, hi);
}

/// `s.parse::<i64>()`.
pub open spec fn parse_i64(s: Seq<char>) -> Result<int, IntErrorKind> {
    parse_int(s, 10, i64::MIN as int, i64::MAX as int)
}

/// `s.parse::<i32>()`.
pub open spec fn parse_i32(s: Seq<char>) -> Result<int, IntErrorKind> {
    parse_int(s, 10, i32::MIN as int, i32::MAX as int)
}

/// The character for digit `d` (lower-case letters above nine).
pub open spec fn digit_char(d: nat) -> char {
    if d < 10 {
        ((d + 48) as u8) as char
    } else {
        ((d + 87) as u8) as char
    }
}

/// `n` written in `radix`, most significant digit first, without leading zeros.
pub open spec fn radix_digits(n: nat, radix: nat) -> Seq<char>
    decreases n,
{
    if radix < 2 || n < radix {
        seq![digit_char(n)]
    } else {
        proof {
            assert(n / radix < n) by (nonlinear_arith)
                requires
                    n >= radix,
                    radix >= 2,
            ;
        }
        radix_digits(n / radix, radix).push(digit_char(n % radix))
    }
}

/// `i` as `Display` prints an integer.
pub open spec fn decimal(i: int) -> Seq<char> {
    if i < 0 {
        seq!['-'] + radix_digits((-i) as nat, 10)
    } else {
        radix_digits(i as nat, 10)
    }
}

/// `t` padded on the left with `0` to at least `width` characters.
pub open spec fn zero_pad(t: Seq<char>, width: nat) -> Seq<char> {
    if t.len() < width {
        Seq::new((width - t.len()) as nat, |k: int| '0') + t
    } else {
        t
    }
}

/// The message that `ParseIntError` displays for each kind.
pub open spec fn int_error_message(k: IntErrorKind) -> Seq<char> {
    match k {
        IntErrorKind::Empty => "cannot parse integer from empty string"@,
        IntErrorKind::InvalidDigit => "invalid digit found in string"@,
        IntErrorKind::PosOverflow => "number too large to fit in target type"@,
        IntErrorKind::NegOverflow => "number too small to fit in target type"@,
    }
}

/// The message that `ParseIntError` displays for `k`.
pub fn int_error_text(k: IntErrorKind) -> (r: String)
    ensures
        r@ == int_error_message(k),
{
    match k {
        IntErrorKind::Empty => owned("cannot parse integer from empty string"),
        IntErrorKind::InvalidDigit => owned("invalid digit found in string"),
        IntErrorKind::PosOverflow => owned("number too large to fit in target type"),
        IntErrorKind::NegOverflow => owned("number too small to fit in target type"),
    }
}

/// Parses `s` in `radix` into the range `lo..=hi`.
pub fn parse_int_exec(s: &str, radix: u32, lo: i128, hi: i128) -> (r: Result<i128, IntErrorKind>)
    requires
        2 <= radix <= 10,
        -0x1_0000_0000_0000_0000_0000 <= lo <= 0 <= hi <= 0x1_0000_0000_0000_0000_0000,
    ensures
        match parse_int(s@, radix as nat, lo as int, hi as int) {
            Ok(n) => r == Ok::<i128, IntErrorKind>(n as i128),
            Err(e) => r == Err::<i128, IntErrorKind>(e),
        },
        r matches Ok(n) ==> lo <= n <= hi,
{
    let v = chars_of(s);
    if v.len() == 0 {
        return Err(IntErrorKind::Empty);
    }
    if (v[0] == '+' || v[0] == '-') && v.len() == 1 {
        return Err(IntErrorKind::InvalidDigit);
    }
    let (neg, start) = if v[0] == '+' {
        (false, 1usize)
    } else if v[0] == '-' && lo < 0 {
        (true, 1usize)
    } else {
        (false, 0usize)
    };
    let mut acc: i128 = 0;
    let mut i: usize = start;
    while i < v.len()
        invariant
            start <= i <= v.len(),
            v@ == s@,
            2 <= radix <= 10,
            -0x1_0000_0000_0000_0000_0000 <= lo <= 0 <= hi <= 0x1_0000_0000_0000_0000_0000,
            lo <= acc <= hi,
            parse_int(s@, radix as nat, lo as int, hi as int) == digits_value(
                v@,
                i as int,
                acc as int,
                radix as nat,
                neg,
                lo as int,
                hi as int,
            ),
        decreases v.len() - i,
    {
        let n = v[i] as u32;
        if !(0x30 <= n && n <= 0x39 && n - 0x30 < radix) {
            return Err(IntErrorKind::InvalidDigit);
        }
        let d: i128 = (n - 0x30) as i128;
        assert(-0x1_0000_0000_0000_0000_0000 * 10 <= acc * radix <= 0x1_0000_0000_0000_0000_0000 * 10)
            by (nonlinear_arith)
            requires
                -0x1_0000_0000_0000_0000_0000 <= acc <= 0x1_0000_0000_0000_0000_0000,
                2 <= radix <= 10,
        ;
        let m: i128 = acc * (radix as i128);
        let next: i128 = if neg {
            m - d
        } else {
            m + d
        };
        if next > hi {
            return Err(IntErrorKind::PosOverflow);
        }
        if next < lo {
            return Err(IntErrorKind::NegOverflow);
        }
        acc = next;
        i += 1;
    }
    Ok(acc)
}

/// `s.parse::<i64>()`.
pub fn parse_i64_exec(s: &str) -> (r: Result<i64, IntErrorKind>)
    ensures
        match parse_i64(s@) {
            Ok(n) => r == Ok::<i64, IntErrorKind>(n as i64),
            Err(e) => r == Err::<i64, IntErrorKind>(e),
        },
        match r {
            Ok(x) => parse_i64(s@) == Ok::<int, IntErrorKind>(x as int),
            Err(e) => parse_i64(s@) == Err::<int, IntErrorKind>(e),
        },
{
    proof {
        lemma_parse_int_range(s@, 10, i64::MIN as int, i64::MAX as int);
    }
    match parse_int_exec(s, 10, i64::MIN as i128, i64::MAX as i128) {
        Ok(n) => Ok(n as i64),
        Err(e) => Err(e),
    }
}

/// `s.parse::<i32>()`.
pub fn parse_i32_exec(s: &str) -> (r: Result<i32, IntErrorKind>)
    ensures
        match parse_i32(s@) {
            Ok(n) => r == Ok::<i32, IntErrorKind>(n as i32),
            Err(e) => r == Err::<i32, IntErrorKind>(e),
        },
        match r {
            Ok(x) => parse_i32(s@) == Ok::<int, IntErrorKind>(x as int),
            Err(e) => parse_i32(s@) == Err::<int, IntErrorKind>(e),
        },
{
    proof {
        lemma_parse_int_range(s@, 10, i32::MIN as int, i32::MAX as int);
    }
    match parse_int_exec(s, 10, i32::MIN as i128, i32::MAX as i128) {
        Ok(n) => Ok(n as i32),
        Err(e) => Err(e),
    }
}

/// `u32::from_str_radix(s, radix)`.
pub fn parse_u32_radix_exec(s: &str, radix: u32) -> (r: Result<u32, IntErrorKind>)
    requires
        2 <= radix <= 10,
    ensures
        match parse_int(s@, radix as nat, 0, u32::MAX as int) {
            Ok(n) => r == Ok::<u32, IntErrorKind>(n as u32),
            Err(e) => r == Err::<u32, IntErrorKind>(e),
        },
{
    proof {
        lemma_parse_int_range(s@, radix as nat, 0, u32::MAX as int);
    }
    match parse_int_exec(s, radix, 0, u32::MAX as i128) {
        Ok(n) => Ok(n as u32),
        Err(e) => Err(e),
    }
}

/// The character for digit `d`.
fn digit_char_exec(d: u128) -> (c: char)
    requires
        d < 16,
    ensures
        c == digit_char(d as nat),
{
    if d < 10 {
        let b: u8 = (d + 48) as u8;
        b as char
    } else {
        let b: u8 = (d + 87) as u8;
        b as char
    }
}

/// The digits of `n` in `radix`.
fn radix_digits_exec(n: u128, radix: u128) -> (v: Vec<char>)
    requires
        2 <= radix <= 16,
    ensures
        v@ == radix_digits(n as nat, radix as nat),
    decreases n,
{
    if n < radix {
        let mut v: Vec<char> = Vec::new();
        v.push(digit_char_exec(n));
        v
    } else {
        assert(n / radix < n) by (nonlinear_arith)
            requires
                n >= radix,
                radix >= 2,
        ;
        let mut v = radix_digits_exec(n / radix, radix);
        v.push(digit_char_exec(n % radix));
        v
    }
}

/// `i.to_string()` for a signed integer.
pub fn int_to_string(i: i64) -> (r: String)
    ensures
        r@ == decimal(i as int),
{
    if i < 0 {
        let m: i128 = -(i as i128);
        let digits = radix_digits_exec(m as u128, 10);
        let mut v: Vec<char> = Vec::new();
        v.push('-');
        let mut k: usize = 0;
        while k < digits.len()
            invariant
                k <= digits.len(),
                v@ == seq!['-'] + digits@.take(k as int),
            decreases digits.len() - k,
        {
            v.push(digits[k]);
            k += 1;
            assert(v@ == seq!['-'] + digits@.take(k as int));
        }
        assert(digits@.take(digits.len() as int) == digits@);
        string_of(&v)
    } else {
        let digits = radix_digits_exec(i as u128, 10);
        string_of(&digits)
    }
}

/// `n.to_string()` for an unsigned integer.
pub fn uint_to_string(n: u64) -> (r: String)
    ensures
        r@ == decimal(n as int),
{
    let digits = radix_digits_exec(n as u128, 10);
    string_of(&digits)
}

/// `format!("{:o}", n)`.
pub fn octal_string(n: u32) -> (r: String)
    ensures
        r@ == radix_digits(n as nat, 8),
{
    let digits = radix_digits_exec(n as u128, 8);
    string_of(&digits)
}

/// `format!("{:08x}", n)`.
pub fn hex8_string(n: u64) -> (r: String)
    ensures
        r@ == zero_pad(radix_digits(n as nat, 16), 8),
{
    let digits = radix_digits_exec(n as u128, 16);
    let mut v: Vec<char> = Vec::new();
    if digits.len() < 8 {
        let pad = 8 - digits.len();
        let mut k: usize = 0;
        while k < pad
            invariant
                k <= pad,
                v@ == Seq::new(k as nat, |j: int| '0'),
            decreases pad - k,
        {
            v.push('0');
            k += 1;
            assert(v@ =~= Seq::new(k as nat, |j: int| '0'));
        }
    }
    let ghost zeros = v@;
    let mut k: usize = 0;
    while k < digits.len()
        invariant
            k <= digits.len(),
            v@ == zeros + digits@.take(k as int),
        decreases digits.len() - k,
    {
        v.push(digits[k]);
        k += 1;
        assert(v@ == zeros + digits@.take(k as int));
    }
    assert(digits@.take(digits.len() as int) == digits@);
    assert(v@ =~= zero_pad(radix_digits(n as nat, 16), 8));
    string_of(&v)
}

/// One more digit `c` read after the value `v`, as `digits_value` reads it.
pub open spec fn digit_step(v: int, c: char, radix: nat, neg: bool, lo: int, hi: int) -> Result<int, IntErrorKind> {
    match digit_value(c, radix) {
        None => Err(IntErrorKind::InvalidDigit),
        Some(d) => {
            let next = if neg {
                v * radix - d
            } else {
                v * radix + d
            };
            if next > hi {
                Err(IntErrorKind::PosOverflow)
            } else if next < lo {
                Err(IntErrorKind::NegOverflow)
            } else {
                Ok(next)
            }
        },
    }
}

/// Reading one more character at the end takes one more step after what the
/// text before it gave.
pub proof fn lemma_digits_value_push(
    s: Seq<char>,
    c: char,
    i: int,
    acc: int,
    radix: nat,
    neg: bool,
    lo: int,
    hi: int,
)
    requires
        0 <= i <= s.len(),
    ensures
        digits_value(s.push(c), i, acc, radix, neg, lo, hi) == match digits_value(s, i, acc, radix, neg, lo, hi) {
            Ok(v) => digit_step(v, c, radix, neg, lo, hi),
            Err(e) => Err(e),
        },
    decreases s.len() - i,
{
    let t = s.push(c);
    if i == s.len() {
        assert(t[i] == c);
        if let Some(d) = digit_value(c, radix) {
            let next = if neg {
                acc * radix - d
            } else {
                acc * radix + d
            };
            if lo <= next <= hi {
                assert(digits_value(t, i + 1, next, radix, neg, lo, hi) == Ok::<int, IntErrorKind>(next));
            }
        }
    } else {
        assert(t[i] == s[i]);
        if let Some(d) = digit_value(s[i], radix) {
            let next = if neg {
                acc * radix - d
            } else {
                acc * radix + d
            };
            if lo <= next <= hi {
                lemma_digits_value_push(s, c, i + 1, next, radix, neg, lo, hi);
            }
        }
    }
}

/// The character of a decimal digit reads back as that digit.
pub proof fn lemma_digit_char_value(d: nat)
    requires
        d < 10,
    ensures
        digit_value(digit_char(d), 10) == Some(d),
        '0' <= digit_char(d) <= '9',
{
    assert(((d + 48) as u8) as char as u32 == d + 48);
}

/// The decimal digits of a number are digits, and there is at least one.
pub proof fn lemma_decimal_digits(m: nat)
    ensures
        radix_digits(m, 10).len() >= 1,
        forall|k: int| 0 <= k < radix_digits(m, 10).len() ==> '0' <= #[trigger] radix_digits(m, 10)[k] <= '9',
    decreases m,
{
    if m < 10 {
        lemma_digit_char_value(m);
    } else {
        lemma_decimal_digits(m / 10);
        lemma_digit_char_value(m % 10);
    }
}

/// The decimal digits of `m` after a prefix `p` read back as `m` (or `-m`).
pub proof fn lemma_digits_read_back(p: Seq<char>, m: nat, neg: bool, lo: int, hi: int)
    requires
        lo <= 0 <= hi,
        neg ==> lo <= -m,
        !neg ==> m <= hi,
    ensures
        digits_value(p + radix_digits(m, 10), p.len() as int, 0, 10, neg, lo, hi) == Ok::<int, IntErrorKind>(
            if neg {
                -m
            } else {
                m as int
            },
        ),
    decreases m,
{
    if m < 10 {
        assert(p + radix_digits(m, 10) =~= p.push(digit_char(m)));
        lemma_digits_value_push(p, digit_char(m), p.len() as int, 0, 10, neg, lo, hi);
        lemma_digit_char_value(m);
    } else {
        let q = m / 10;
        let r = m % 10;
        assert(q * 10 + r == m);
        lemma_digits_read_back(p, q, neg, lo, hi);
        assert(p + radix_digits(m, 10) =~= (p + radix_digits(q, 10)).push(digit_char(r)));
        lemma_digits_value_push(p + radix_digits(q, 10), digit_char(r), p.len() as int, 0, 10, neg, lo, hi);
        lemma_digit_char_value(r);
    }
}

/// A number written in decimal reads back as the same number: what the
/// library stores as text (settings, process ids) it reads back unchanged.
pub proof fn law_decimal_parses_back(n: i64)
    ensures
        parse_i64(decimal(n as int)) == Ok::<int, IntErrorKind>(n as int),
{
    if n < 0 {
        let m = (-(n as int)) as nat;
        lemma_decimal_digits(m);
        lemma_digits_read_back(seq!['-'], m, true, i64::MIN as int, i64::MAX as int);
        assert(decimal(n as int) == seq!['-'] + radix_digits(m, 10));
    } else {
        let m = n as nat;
        lemma_decimal_digits(m);
        lemma_digits_read_back(Seq::<char>::empty(), m, false, i64::MIN as int, i64::MAX as int);
        assert(Seq::<char>::empty() + radix_digits(m, 10) =~= radix_digits(m, 10));
        assert(radix_digits(m, 10)[0] != '+' && radix_digits(m, 10)[0] != '-');
    }
}

} // verus!
