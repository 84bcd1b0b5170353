//! Text-to-number decoders.
//!
//! Numbers in a definition document are written either in decimal or, with a
//! `0x` prefix, in hexadecimal.  The decoders here mirror the grammar that
//! `str::parse` and `u32::from_str_radix` accept (an optional leading sign,
//! then digits of the radix), so a value that the standard library would
//! accept is accepted here with the same meaning.

use vstd::prelude::*;
use crate::error::Error;

verus! {

pub open spec fn is_dec_digit(c: char) -> bool {
    '0' <= c && c <= '9'
}

pub open spec fn is_hex_digit(c: char) -> bool {
    is_dec_digit(c) || ('a' <= c && c <= 'f') || ('A' <= c && c <= 'F')
}

pub open spec fn dec_digit_val(c: char) -> int {
    c as int - '0' as int
}

pub open spec fn hex_digit_val(c: char) -> int {
    if is_dec_digit(c) {
        dec_digit_val(c)
    } else if 'a' <= c && c <= 'f' {
        c as int - 'a' as int + 10
    } else {
        c as int - 'A' as int + 10
    }
}

pub open spec fn digit_ok(c: char, radix: int) -> bool {
    if radix == 16 {
        is_hex_digit(c)
    } else {
        is_dec_digit(c)
    }
}

pub open spec fn digit_val(c: char, radix: int) -> int {
    if radix == 16 {
        hex_digit_val(c)
    } else {
        dec_digit_val(c)
    }
}

pub open spec fn all_digits(s: Seq<char>, radix: int) -> bool {
    forall|i: int| 0 <= i < s.len() ==> digit_ok(#[trigger] s[i], radix)
}

/// Numeric value of a digit string, most significant digit first.
pub open spec fn digits_val(s: Seq<char>, radix: int) -> int
    decreases s.len(),
{
    if s.len() == 0 {
        0
    } else {
        digits_val(s.drop_last(), radix) * radix + digit_val(s.last(), radix)
    }
}

/// Strip a single leading `+`, which the standard numeric parsers accept.
pub open spec fn strip_plus(s: Seq<char>) -> Seq<char> {
    if s.len() > 0 && s[0] == '+' {
        s.subrange(1, s.len() as int)
    } else {
        s
    }
}

/// What `u32::from_str_radix(s, radix)` returns, as an `Option`.
pub open spec fn radix_u32_of(s: Seq<char>, radix: int) -> Option<u32> {
    let t = strip_plus(s);
    if t.len() > 0 && all_digits(t, radix) && digits_val(t, radix) <= u32::MAX {
        Some(digits_val(t, radix) as u32)
    } else {
        None
    }
}

/// What `str::parse::<u32>` returns, as an `Option`.
pub open spec fn dec_u32_of(s: Seq<char>) -> Option<u32> {
    radix_u32_of(s, 10)
}

/// The dual-base integer grammar of the document format: a `0x` prefix
/// selects base 16, otherwise the text is read in base 10.
pub open spec fn int_u32_of(s: Seq<char>) -> Option<u32> {
    if s.len() >= 2 && s[0] == '0' && s[1] == 'x' {
        radix_u32_of(s.subrange(2, s.len() as int), 16)
    } else {
        radix_u32_of(s, 10)
    }
}

/// What `str::parse::<i32>` returns, as an `Option`.
pub open spec fn dec_i32_of(s: Seq<char>) -> Option<i32> {
    if s.len() > 0 && s[0] == '-' {
        let t = s.subrange(1, s.len() as int);
        if t.len() > 0 && all_digits(t, 10) && digits_val(t, 10) <= 0x8000_0000 {
            Some((-digits_val(t, 10)) as i32)
        } else {
            None
        }
    } else {
        let t = strip_plus(s);
        if t.len() > 0 && all_digits(t, 10) && digits_val(t, 10) <= i32::MAX {
            Some(digits_val(t, 10) as i32)
        } else {
            None
        }
    }
}

proof fn lemma_digits_val_nonneg(s: Seq<char>, radix: int)
    requires
        2 <= radix,
        all_digits(s, radix),
    ensures
        digits_val(s, radix) >= 0,
    decreases s.len(),
{
    if s.len() > 0 {
        lemma_digits_val_nonneg(s.drop_last(), radix);
        vstd::arithmetic::mul::lemma_mul_inequality(0, digits_val(s.drop_last(), radix), radix);
    }
}

/// The value of a digit string only grows as digits are appended.
proof fn lemma_digits_val_prefix_le(s: Seq<char>, i: int, radix: int)
    requires
        2 <= radix,
        all_digits(s, radix),
        0 <= i <= s.len(),
    ensures
        digits_val(s.subrange(0, i), radix) <= digits_val(s, radix),
    decreases s.len() - i,
{
    if i < s.len() {
        let p = s.subrange(0, i + 1);
        let q = s.subrange(0, i);
        assert(p.drop_last() =~= q);
        assert(p.last() == s[i]);
        assert(digit_ok(s[i], radix));
        assert(digit_val(s[i], radix) >= 0);
        assert(all_digits(q, radix));
        lemma_digits_val_nonneg(q, radix);
        let v = digits_val(q, radix);
        vstd::arithmetic::mul::lemma_mul_inequality(1, radix, v);
        assert(1 * v == v) by (nonlinear_arith);
        assert(v * radix == radix * v) by (nonlinear_arith);
        assert(digits_val(p, radix) == v * radix + digit_val(s[i], radix));
        assert(digits_val(p, radix) >= v);
        lemma_digits_val_prefix_le(s, i + 1, radix);
        assert(digits_val(s.subrange(0, i + 1), radix) <= digits_val(s, radix));
    } else {
        assert(s.subrange(0, i) =~= s);
    }
}

fn digit_of(c: char, radix: u32) -> (r: Option<u32>)
    requires
        radix == 10 || radix == 16,
    ensures
        match r {
            Some(v) => digit_ok(c, radix as int) && v == digit_val(c, radix as int),
            None => !digit_ok(c, radix as int),
        },
{
    if '0' <= c && c <= '9' {
        Some(c as u32 - '0' as u32)
    } else if radix == 16 && 'a' <= c && c <= 'f' {
        Some(c as u32 - 'a' as u32 + 10)
    } else if radix == 16 && 'A' <= c && c <= 'F' {
        Some(c as u32 - 'A' as u32 + 10)
    } else {
        None
    }
}

/// Parse the digits of `s` starting at `from`, in the given radix, with a
/// single leading `+` allowed at `from` itself.
fn parse_radix_u32_from(s: &str, from: usize, radix: u32) -> (r: Option<u32>)
    requires
        radix == 10 || radix == 16,
        from <= s@.len(),
    ensures
        r == radix_u32_of(s@.subrange(from as int, s@.len() as int), radix as int),
{
    let n = s.unicode_len();
    let ghost whole = s@.subrange(from as int, s@.len() as int);
    let mut i: usize = from;
    if i < n && s.get_char(i) == '+' {
        i = i + 1;
    }
    let ghost t = strip_plus(whole);
    proof {
        assert(t =~= s@.subrange(i as int, s@.len() as int));
    }
    if i >= n {
        return None;
    }
    let ghost start = i as int;
    let mut acc: u32 = 0;
    while i < n
        invariant
            0 <= start <= i as int <= n,
            n == s@.len(),
            from <= n,
            radix == 10 || radix == 16,
            t == strip_plus(s@.subrange(from as int, n as int)),
            t =~= s@.subrange(start, n as int),
            t.len() > 0,
            all_digits(t.subrange(0, i - start), radix as int),
            acc == digits_val(t.subrange(0, i - start), radix as int),
        decreases n - i,
    {
        let c = s.get_char(i);
        let ghost done = t.subrange(0, i - start);
        let ghost next = t.subrange(0, i + 1 - start);
        proof {
            assert(next.drop_last() =~= done);
            assert(next.last() == c);
        }
        match digit_of(c, radix) {
            None => {
                assert(!digit_ok(t[i - start], radix as int));
                return None;
            },
            Some(d) => {
                proof {
                    assert(((acc as int) * (radix as int) + (d as int)) < 0x10_0000_0000) by (nonlinear_arith)
                        requires
                            acc <= u32::MAX,
                            radix <= 16,
                            0 <= d <= 15,
                            0 <= acc,
                    {
                    }
                }
                let wide: u64 = acc as u64 * radix as u64 + d as u64;
                if wide > u32::MAX as u64 {
                    proof {
                        if all_digits(t, radix as int) {
                            assert(digits_val(next, radix as int) == wide);
                            lemma_digits_val_prefix_le(t, i + 1 - start, radix as int);
                        }
                    }
                    return None;
                }
                acc = wide as u32;
            },
        }
        i = i + 1;
    }
    proof {
        assert(t.subrange(0, i - start) =~= t);
    }
    Some(acc)
}

/// Decode an unsigned integer written in decimal, as `str::parse::<u32>`
/// reads it: an optional `+`, then one or more decimal digits.
pub fn parse_dec_u32(s: &str) -> (r: Option<u32>)
    ensures
        r == dec_u32_of(s@),
{
    let ghost whole = s@;
    proof {
        assert(s@.subrange(0, s@.len() as int) =~= s@);
    }
    parse_radix_u32_from(s, 0, 10)
}

/// Decode an unsigned integer stored in base-10 or base-16 text.
/// A leading `0x` selects base 16; anything else is read as base 10.
/// Fails with `BadValue` on empty input, foreign characters, and values
/// over `u32::MAX`.
pub fn parse_int(s: &str) -> (r: Result<u32, Error>)
    ensures
        r == (match int_u32_of(s@) {
            Some(v) => Ok::<u32, Error>(v),
            None => Err::<u32, Error>(Error::BadValue),
        }),
{
    match parse_int_opt(s) {
        Some(v) => Ok(v),
        None => Err(Error::BadValue),
    }
}

/// Decode as [`parse_int`] does, with absence of a value as `None`.
pub fn parse_int_opt(s: &str) -> (r: Option<u32>)
    ensures
        r == int_u32_of(s@),
{
    let n = s.unicode_len();
    if n >= 2 && s.get_char(0) == '0' && s.get_char(1) == 'x' {
        parse_radix_u32_from(s, 2, 16)
    } else {
        proof {
            assert(s@.subrange(0, s@.len() as int) =~= s@);
        }
        parse_radix_u32_from(s, 0, 10)
    }
}

/// Decode a signed integer written in decimal, as `str::parse::<i32>`
/// reads it: an optional sign, then one or more decimal digits.
pub fn parse_dec_i32(s: &str) -> (r: Option<i32>)
    ensures
        r == dec_i32_of(s@),
{
    let n = s.unicode_len();
    if n > 0 && s.get_char(0) == '-' {
        let ghost t = s@.subrange(1, s@.len() as int);
        if n < 2 {
            return None;
        }
        let rest = s.substring_char(1, n);
        proof {
            assert(t =~= rest@);
        }
        if rest.unicode_len() > 0 && rest.get_char(0) == '+' {
            proof {
                assert(!digit_ok(t[0], 10));
            }
            return None;
        }
        proof {
            assert(strip_plus(rest@) =~= rest@);
            assert(rest@.subrange(0, rest@.len() as int) =~= rest@);
        }
        let m = parse_radix_u32_from(rest, 0, 10);
        proof {
            assert(m == radix_u32_of(t, 10));
            assert(strip_plus(t) == t);
            if all_digits(t, 10) {
                lemma_digits_val_nonneg(t, 10);
            }
        }
        match m {
            Some(v) => {
                if v == 0x8000_0000 {
                    Some(i32::MIN)
                } else if v < 0x8000_0000 {
                    Some(0i32 - v as i32)
                } else {
                    None
                }
            },
            None => None,
        }
    } else {
        let r = parse_radix_u32_from(s, 0, 10);
        proof {
            assert(s@.subrange(0, s@.len() as int) =~= s@);
            assert(r == radix_u32_of(s@, 10));
            if all_digits(strip_plus(s@), 10) {
                lemma_digits_val_nonneg(strip_plus(s@), 10);
            }
        }
        match r {
            Some(v) => {
                if v <= i32::MAX as u32 {
                    Some(v as i32)
                } else {
                    None
                }
            },
            None => None,
        }
    }
}

/// First index at or after `i` that does not hold a decimal digit.
pub open spec fn digit_run(s: Seq<char>, i: int) -> int
    decreases s.len() - i,
    when 0 <= i <= s.len()
{
    if i < s.len() && is_dec_digit(s[i]) {
        digit_run(s, i + 1)
    } else {
        i
    }
}

/// `inf`, `infinity` and `nan` in any letter case, as the standard float
/// parser accepts them.
pub open spec fn is_special_float(t: Seq<char>) -> bool {
    crate::text::fold_seq(t) == "inf"@ || crate::text::fold_seq(t) == "infinity"@
        || crate::text::fold_seq(t) == "nan"@
}

/// Exponent part of a float literal, starting at `j`: either nothing, or
/// `e`/`E`, an optional sign, and at least one digit running to the end.
pub open spec fn float_exp_ok(t: Seq<char>, j: int) -> bool {
    if j == t.len() {
        true
    } else if 0 <= j < t.len() && (t[j] == 'e' || t[j] == 'E') {
        let k = if j + 1 < t.len() && (t[j + 1] == '+' || t[j + 1] == '-') {
            j + 2
        } else {
            j + 1
        };
        k < t.len() && digit_run(t, k) == t.len()
    } else {
        false
    }
}

/// An unsigned float literal: digits with an optional `.` and fraction, or
/// `.` followed by digits, then an optional exponent.
pub open spec fn is_float_number(t: Seq<char>) -> bool {
    let i = digit_run(t, 0);
    let j = if i < t.len() && t[i] == '.' {
        digit_run(t, i + 1)
    } else {
        i
    };
    (i > 0 || j > i + 1) && float_exp_ok(t, j)
}

/// The grammar that `str::parse::<f32>` accepts: an optional sign, then a
/// plain decimal literal with optional fraction and exponent, or one of the
/// special words `inf`, `infinity`, `nan` in any letter case.
pub open spec fn is_float_text(s: Seq<char>) -> bool {
    let t = if s.len() > 0 && (s[0] == '+' || s[0] == '-') {
        s.subrange(1, s.len() as int)
    } else {
        s
    };
    is_special_float(t) || is_float_number(t)
}

proof fn lemma_digit_run_bounds(s: Seq<char>, i: int)
    requires
        0 <= i <= s.len(),
    ensures
        i <= digit_run(s, i) <= s.len(),
    decreases s.len() - i,
{
    if i < s.len() && is_dec_digit(s[i]) {
        lemma_digit_run_bounds(s, i + 1);
    }
}

fn scan_digits(s: &str, from: usize) -> (r: usize)
    requires
        from <= s@.len(),
    ensures
        r == digit_run(s@, from as int),
        from <= r <= s@.len(),
{
    let n = s.unicode_len();
    let mut i: usize = from;
    while i < n
        invariant
            from <= i as int <= n,
            n == s@.len(),
            digit_run(s@, from as int) == digit_run(s@, i as int),
        decreases n - i,
    {
        let c = s.get_char(i);
        if !('0' <= c && c <= '9') {
            return i;
        }
        i = i + 1;
    }
    i
}

/// Does `s` read as a float literal?  The stored model keeps the verbatim
/// text of a bound rather than a machine float, so a bound is checked here
/// and kept as text.
pub fn is_float_literal(s: &str) -> (r: bool)
    ensures
        r == is_float_text(s@),
{
    let n = s.unicode_len();
    let mut start: usize = 0;
    if n > 0 {
        let c0 = s.get_char(0);
        if c0 == '+' || c0 == '-' {
            start = 1;
        }
    }
    let t = s.substring_char(start, n);
    let ghost tv = t@;
    proof {
        if start == 0 {
            assert(tv =~= s@);
        } else {
            assert(tv =~= s@.subrange(1, s@.len() as int));
        }
    }
    if crate::text::eq_fold(t, "inf") || crate::text::eq_fold(t, "infinity")
        || crate::text::eq_fold(t, "nan") {
        return true;
    }
    let m = t.unicode_len();
    let i = scan_digits(t, 0);
    let j = if i < m {
        if t.get_char(i) == '.' {
            scan_digits(t, i + 1)
        } else {
            i
        }
    } else {
        i
    };
    proof {
        lemma_digit_run_bounds(tv, 0);
    }
    if !(i > 0 || j > i + 1) {
        return false;
    }
    if j == m {
        return true;
    }
    let cj = t.get_char(j);
    if cj == 'e' || cj == 'E' {
        let mut k = j + 1;
        if k < m {
            let ck = t.get_char(k);
            if ck == '+' || ck == '-' {
                k = k + 1;
            }
        }
        if k < m {
            let e = scan_digits(t, k);
            return e == m;
        }
        return false;
    }
    false
}

} // verus!
