//! Memory limits written with a unit suffix (`512m`, `1g`, `256k`, `1024b`).
use vstd::prelude::*;
use crate::num::{parse_i64, parse_i64_exec};
use crate::text::{chars_of, ends_with, string_of_range, trim, trim_exec};

verus! {

/// The text that `str::to_lowercase` returns for `s`.
pub uninterp spec fn lowercase(s: Seq<char>) -> Seq<char>;

/// `str::to_lowercase`: Unicode lower case of `s`.
#[verifier::external_body]
pub(crate) fn to_lowercase(s: &str) -> (r: String)
    ensures
        r@ == lowercase(s@),
{
    s.to_lowercase()
}

/// The number part and the unit of a lower-cased memory limit: one trailing `b`
/// is dropped, then a trailing `k`, `m` or `g` sets the unit.
pub open spec fn memory_parts(t: Seq<char>) -> (Seq<char>, int) {
    let n = if ends_with(t, seq!['b']) {
        t.drop_last()
    } else {
        t
    };
    if ends_with(n, seq!['k']) {
        (n.drop_last(), 1024int)
    } else if ends_with(n, seq!['m']) {
        (n.drop_last(), 1048576int)
    } else if ends_with(n, seq!['g']) {
        (n.drop_last(), 1073741824int)
    } else {
        (n, 1int)
    }
}

/// The number of a memory limit (zero when it is not an integer) times its unit.
pub open spec fn memory_of_lowered(t: Seq<char>) -> int {
    let (n, unit) = memory_parts(t);
    match parse_i64(n) {
        Ok(v) => v * unit,
        Err(_) => 0,
    }
}

/// Whether a value fits an `i64`.
pub open spec fn fits_i64(v: int) -> bool {
    i64::MIN <= v <= i64::MAX
}

/// What a memory limit means in bytes: zero for text that is empty once
/// trimmed, else the value of its trimmed, lower-cased form.
pub open spec fn memory_bytes_of(m: Seq<char>) -> int {
    if trim(m).len() == 0 {
        0
    } else {
        memory_of_lowered(lowercase(trim(m)))
    }
}

/// Whether the last character of `v` is `c`.
fn last_is(v: &Vec<char>, c: char) -> (b: bool)
    ensures
        b == ends_with(v@, seq![c]),
{
    if v.len() == 0 {
        false
    } else {
        let last = v[v.len() - 1];
        assert(v@.subrange(v.len() - 1, v.len() as int) =~= seq![last]);
        if last == c {
            true
        } else {
            assert(seq![last] != seq![c]) by {
                assert(seq![last][0] != seq![c][0]);
            }
            false
        }
    }
}

/// The number part and unit of a lower-cased memory limit, with the number parsed.
fn memory_number(t: &str) -> (r: (i64, i64))
    ensures
        r.1 == memory_parts(t@).1,
        r.0 == match parse_i64(memory_parts(t@).0) {
            Ok(v) => v,
            Err(_) => 0int,
        },
{
    let v = chars_of(t);
    let n = if last_is(&v, 'b') {
        string_of_range(&v, 0, v.len() - 1)
    } else {
        string_of_range(&v, 0, v.len())
    };
    assert(v@.subrange(0, v.len() as int) == v@);
    let vn = chars_of(n.as_str());
    let (num, unit): (String, i64) = if last_is(&vn, 'k') {
        (string_of_range(&vn, 0, vn.len() - 1), 1024)
    } else if last_is(&vn, 'm') {
        (string_of_range(&vn, 0, vn.len() - 1), 1024 * 1024)
    } else if last_is(&vn, 'g') {
        (string_of_range(&vn, 0, vn.len() - 1), 1024 * 1024 * 1024)
    } else {
        (n, 1)
    };
    let value = match parse_i64_exec(num.as_str()) {
        Ok(x) => x,
        Err(_) => 0,
    };
    (value, unit)
}

/// The bytes of a lower-cased memory limit, when they fit an `i64`.
pub fn memory_of_lowered_checked(t: &str) -> (r: Option<i64>)
    ensures
        match r {
            Some(x) => fits_i64(memory_of_lowered(t@)) && x == memory_of_lowered(t@),
            None => !fits_i64(memory_of_lowered(t@)),
        },
{
    let (value, unit) = memory_number(t);
    value.checked_mul(unit)
}

/// The bytes of a lower-cased memory limit.
pub fn memory_bytes_of_lowered(t: &str) -> (r: i64)
    requires
        fits_i64(memory_of_lowered(t@)),
    ensures
        r == memory_of_lowered(t@),
{
    let (value, unit) = memory_number(t);
    value * unit
}

/// Parses a memory limit such as `512m`, `1g`, `256k`, `1024b` or `50` into bytes;
/// text that is not such a limit counts as zero.
pub fn parse_memory_bytes(m_str: &str) -> (r: i64)
    requires
        fits_i64(memory_bytes_of(m_str@)),
    ensures
        r == memory_bytes_of(m_str@),
{
    let clean = trim_exec(m_str);
    if clean.as_str().is_empty() {
        return 0;
    }
    let lowered = to_lowercase(clean.as_str());
    memory_bytes_of_lowered(lowered.as_str())
}

/// Parses a memory limit into bytes, or `None` when the bytes do not fit an `i64`.
pub fn checked_parse_memory_bytes(m_str: &str) -> (r: Option<i64>)
    ensures
        match r {
            Some(x) => fits_i64(memory_bytes_of(m_str@)) && x == memory_bytes_of(m_str@),
            None => !fits_i64(memory_bytes_of(m_str@)),
        },
{
    let clean = trim_exec(m_str);
    if clean.as_str().is_empty() {
        return Some(0);
    }
    let lowered = to_lowercase(clean.as_str());
    match memory_of_lowered_checked(lowered.as_str()) {
        Some(_) => Some(parse_memory_bytes(m_str)),
        None => None,
    }
}

/// The bytes of a `box.create` / `box.update` memory option: a trailing `m`/`M`
/// means mebibytes, `g`/`G` gibibytes, otherwise bytes; a number that does not
/// parse counts as zero.
pub open spec fn create_memory_of(m: Seq<char>) -> int {
    if m.len() == 0 {
        0
    } else if ends_with(m, seq!['m']) || ends_with(m, seq!['M']) {
        match parse_i64(m.drop_last()) {
            Ok(v) => v * 1024 * 1024,
            Err(_) => 0,
        }
    } else if ends_with(m, seq!['g']) || ends_with(m, seq!['G']) {
        match parse_i64(m.drop_last()) {
            Ok(v) => v * 1024 * 1024 * 1024,
            Err(_) => 0,
        }
    } else {
        match parse_i64(m) {
            Ok(v) => v,
            Err(_) => 0,
        }
    }
}

/// The bytes of a `box.create` / `box.update` memory option, or `None` when they
/// do not fit an `i64`.
pub fn checked_create_memory_bytes(m: &str) -> (r: Option<i64>)
    ensures
        match r {
            Some(x) => fits_i64(create_memory_of(m@)) && x == create_memory_of(m@),
            None => !fits_i64(create_memory_of(m@)),
        },
{
    let v = chars_of(m);
    if v.len() == 0 {
        return Some(0);
    }
    let mib = last_is(&v, 'm') || last_is(&v, 'M');
    let gib = last_is(&v, 'g') || last_is(&v, 'G');
    if mib || gib {
        let num = string_of_range(&v, 0, v.len() - 1);
        assert(num@ == m@.drop_last());
        let value = match parse_i64_exec(num.as_str()) {
            Ok(x) => x,
            Err(_) => 0,
        };
        let unit: i64 = if mib {
            1024 * 1024
        } else {
            1024 * 1024 * 1024
        };
        assert(value * 1024 * 1024 == value * (1024 * 1024)) by (nonlinear_arith);
        assert(value * 1024 * 1024 * 1024 == value * (1024 * 1024 * 1024)) by (nonlinear_arith);
        value.checked_mul(unit)
    } else {
        match parse_i64_exec(m) {
            Ok(x) => Some(x),
            Err(_) => Some(0),
        }
    }
}

/// The bytes of a `box.create` / `box.update` memory option.
pub fn create_memory_bytes(m: &str) -> (r: i64)
    requires
        fits_i64(create_memory_of(m@)),
    ensures
        r == create_memory_of(m@),
{
    match checked_create_memory_bytes(m) {
        Some(x) => x,
        None => 0,
    }
}

} // verus!
