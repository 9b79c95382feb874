//! Identifier and numeric text: UUIDs, exact decimals, integers and float
//! literals.
use vstd::prelude::*;

use crate::text::{chars_of, lower, lower_chars};

verus! {

/// An exact decimal: `mantissa * 10^(-scale)`.
#[derive(Clone, Copy, Debug, PartialEq, Eq, Structural)]
pub struct Decimal {
    pub mantissa: i128,
    pub scale: u32,
}

/// What uuid's `Uuid::parse_str` reads from a text, as a 128-bit number.
pub uninterp spec fn uuid_text_of(s: Seq<char>) -> Option<u128>;

/// What rust_decimal's `Decimal::from_str` reads from a text.
pub uninterp spec fn decimal_text_of(s: Seq<char>) -> Option<Decimal>;

/// Relies on uuid's `Uuid::parse_str`: the hyphenated, simple, braced and
/// URN forms of a UUID, read as its 128-bit value. Its hex decoder takes
/// either case and the value is big-endian (`as_u128`), so the simple and
/// hyphenated forms give the number that their hex digits spell.
#[verifier::external_body]
pub(crate) fn parse_uuid(s: &str) -> (r: Option<u128>)
    ensures
        r == uuid_text_of(s@),
        plain_uuid_of(s@) matches Some(u) ==> r == Some(u),
{
    match uuid::Uuid::parse_str(s) {
        Ok(u) => Some(u.as_u128()),
        Err(_) => None,
    }
}

/// Relies on rust_decimal's `Decimal::from_str`: a decimal text read in
/// base ten with no binary rounding; a scale is at most 28. A plain text
/// (sign, digits, point, digits; 28 digits at most) is read exactly by its
/// radix-10 reader, the digits giving the mantissa and those after the
/// point the scale.
#[verifier::external_body]
pub(crate) fn parse_decimal(s: &str) -> (r: Option<Decimal>)
    ensures
        r == decimal_text_of(s@),
        r matches Some(d) ==> d.scale <= 28,
        plain_decimal_of(s@) matches Some(d) ==> r == Some(d),
{
    match <rust_decimal::Decimal as std::str::FromStr>::from_str(s) {
        Ok(d) => Some(Decimal { mantissa: d.mantissa(), scale: d.scale() }),
        Err(_) => None,
    }
}

// ---------------------------------------------------------------------------
// UUID texts

pub open spec fn is_hex_digit(c: char) -> bool {
    ('0' <= c <= '9') || ('a' <= c <= 'f') || ('A' <= c <= 'F')
}

pub open spec fn hex_digit_value(c: char) -> int {
    if '0' <= c <= '9' {
        (c as u32) - ('0' as u32)
    } else if 'a' <= c <= 'f' {
        (c as u32) - ('a' as u32) + 10
    } else {
        (c as u32) - ('A' as u32) + 10
    }
}

/// The number that a run of hex digits spells, most significant first.
pub open spec fn hex_value(s: Seq<char>) -> int
    decreases s.len(),
{
    if s.len() == 0 {
        0
    } else {
        hex_value(s.drop_last()) * 16 + hex_digit_value(s.last())
    }
}

/// The 32 hex digits of a UUID text in the simple form (32 digits) or the
/// hyphenated form (8-4-4-4-12 digits).
pub open spec fn uuid_hex_digits(s: Seq<char>) -> Option<Seq<char>> {
    if s.len() == 32 {
        Some(s)
    } else if s.len() == 36 && s[8] == '-' && s[13] == '-' && s[18] == '-' && s[23] == '-' {
        Some(
            s.subrange(0, 8) + s.subrange(9, 13) + s.subrange(14, 18) + s.subrange(19, 23)
                + s.subrange(24, 36),
        )
    } else {
        None
    }
}

/// The value of a UUID text in the simple or hyphenated form.
pub open spec fn plain_uuid_of(s: Seq<char>) -> Option<u128> {
    match uuid_hex_digits(s) {
        Some(h) => if forall|i: int| 0 <= i < h.len() ==> is_hex_digit(#[trigger] h[i]) {
            Some(hex_value(h) as u128)
        } else {
            None
        },
        None => None,
    }
}

// ---------------------------------------------------------------------------
// Integers

pub open spec fn is_digit(c: char) -> bool {
    '0' <= c <= '9'
}

pub open spec fn all_digits(s: Seq<char>) -> bool {
    forall|i: int| 0 <= i < s.len() ==> is_digit(#[trigger] s[i])
}

pub open spec fn digit_value(c: char) -> int {
    (c as u32) - ('0' as u32)
}

/// The number that a run of decimal digits spells.
pub open spec fn digits_value(s: Seq<char>) -> int
    decreases s.len(),
{
    if s.len() == 0 {
        0
    } else {
        digits_value(s.drop_last()) * 10 + digit_value(s.last())
    }
}

pub open spec fn has_sign(s: Seq<char>) -> bool {
    s.len() > 0 && (s[0] == '+' || s[0] == '-')
}

/// `s` without one leading sign.
pub open spec fn unsigned_part(s: Seq<char>) -> Seq<char> {
    if has_sign(s) {
        s.drop_first()
    } else {
        s
    }
}

/// The integer grammar of `i64::from_str`: an optional `+` or `-`, then one
/// or more decimal digits, and nothing else.
pub open spec fn integer_text_value(s: Seq<char>) -> Option<int> {
    let body = unsigned_part(s);
    if body.len() > 0 && all_digits(body) {
        if has_sign(s) && s[0] == '-' {
            Some(-digits_value(body))
        } else {
            Some(digits_value(body))
        }
    } else {
        None
    }
}

/// The `i64` that a text spells: the integer grammar, within range.
pub open spec fn i64_text_value(s: Seq<char>) -> Option<i64> {
    match integer_text_value(s) {
        Some(v) => if i64::MIN <= v <= i64::MAX {
            Some(v as i64)
        } else {
            None
        },
        None => None,
    }
}

/// Parses an `i64` in the grammar of `i64::from_str`.
pub fn parse_i64(s: &str) -> (r: Option<i64>)
    ensures
        r == i64_text_value(s@),
{
    let v = chars_of(s);
    let n = v.len();
    let signed = n > 0 && (v[0] == '+' || v[0] == '-');
    let negative = signed && v[0] == '-';
    let start: usize = if signed {
        1
    } else {
        0
    };
    let ghost body = unsigned_part(v@);
    proof {
        if signed {
            assert(body =~= v@.subrange(1, n as int));
        } else {
            assert(body =~= v@.subrange(0, n as int));
        }
    }
    if start == n {
        return None;
    }
    // Past this bound the magnitude fits no i64 in either sign.
    let limit: u128 = 0x8000_0000_0000_0000;
    let mut acc: u128 = 0;
    let mut big = false;
    let mut k: usize = start;
    while k < n
        invariant
            start <= k <= n == v@.len(),
            v@ == s@,
            body == unsigned_part(v@),
            body == v@.subrange(start as int, n as int),
            all_digits(v@.subrange(start as int, k as int)),
            !big ==> acc == digits_value(v@.subrange(start as int, k as int)) && acc <= limit,
            big ==> digits_value(v@.subrange(start as int, k as int)) > limit,
            limit == 0x8000_0000_0000_0000,
        decreases n - k,
    {
        let c = v[k];
        if !('0' <= c && c <= '9') {
            proof {
                assert(body[k - start] == c);
            }
            return None;
        }
        let ghost prefix = v@.subrange(start as int, k as int);
        proof {
            assert(v@.subrange(start as int, k + 1).drop_last() =~= prefix);
            assert(v@.subrange(start as int, k + 1) =~= prefix.push(c));
        }
        if !big {
            let d = (c as u32 - '0' as u32) as u128;
            let next = acc * 10 + d;
            if next > limit {
                big = true;
            } else {
                acc = next;
            }
        }
        k = k + 1;
    }
    proof {
        assert(v@.subrange(start as int, n as int) == body);
    }
    if big {
        return None;
    }
    if negative {
        if acc == limit {
            Some(i64::MIN)
        } else {
            Some(-(acc as i64))
        }
    } else if acc == limit {
        None
    } else {
        Some(acc as i64)
    }
}

// ---------------------------------------------------------------------------
// Plain decimals

/// Index of the first decimal point of `t`, or its length.
pub open spec fn point_index(t: Seq<char>) -> int
    decreases t.len(),
{
    if t.len() == 0 {
        0
    } else if t[0] == '.' {
        0
    } else {
        1 + point_index(t.drop_first())
    }
}

/// The exact value of a plain decimal text: an optional sign, one or more
/// digits, then optionally a point and one or more digits, with 28 digits
/// at most in all.
pub open spec fn plain_decimal_of(s: Seq<char>) -> Option<Decimal> {
    let body = unsigned_part(s);
    let p = point_index(body);
    let whole = body.subrange(0, p);
    let frac = if p < body.len() {
        body.subrange(p + 1, body.len() as int)
    } else {
        Seq::<char>::empty()
    };
    if whole.len() > 0 && all_digits(whole) && (p == body.len() || (frac.len() > 0 && all_digits(
        frac,
    ))) && whole.len() + frac.len() <= 28 {
        let v = digits_value(whole + frac);
        Some(
            Decimal {
                mantissa: (if has_sign(s) && s[0] == '-' {
                    -v
                } else {
                    v
                }) as i128,
                scale: frac.len() as u32,
            },
        )
    } else {
        None
    }
}

// ---------------------------------------------------------------------------
// Float literals

pub open spec fn is_exp_mark(c: char) -> bool {
    c == 'e' || c == 'E'
}

/// Index of the first exponent mark of `t`, or its length.
pub open spec fn exp_index(t: Seq<char>) -> int
    decreases t.len(),
{
    if t.len() == 0 {
        0
    } else if is_exp_mark(t[0]) {
        0
    } else {
        1 + exp_index(t.drop_first())
    }
}

/// Digits with at most one decimal point, and at least one digit.
pub open spec fn is_mantissa(m: Seq<char>) -> bool {
    &&& forall|i: int| 0 <= i < m.len() ==> is_digit(#[trigger] m[i]) || m[i] == '.'
    &&& forall|i: int, j: int| 0 <= i < m.len() && 0 <= j < m.len() && #[trigger] m[i] == '.' && #[trigger] m[j] == '.' ==> i == j
    &&& exists|i: int| 0 <= i < m.len() && is_digit(#[trigger] m[i])
}

/// An optional sign, then one or more digits.
pub open spec fn is_exponent(x: Seq<char>) -> bool {
    unsigned_part(x).len() > 0 && all_digits(unsigned_part(x))
}

/// A decimal number: a mantissa, then optionally an exponent mark and an
/// exponent.
pub open spec fn is_decimal_number(t: Seq<char>) -> bool {
    let e = exp_index(t);
    is_mantissa(t.subrange(0, e)) && (e == t.len() || is_exponent(t.subrange(e + 1, t.len() as int)))
}

/// The grammar of `f64::from_str`: an optional sign, then `inf`,
/// `infinity` or `nan` in any case, or a decimal number.
pub open spec fn is_float_text(s: Seq<char>) -> bool {
    let body = unsigned_part(s);
    lower(body) == "inf"@ || lower(body) == "infinity"@ || lower(body) == "nan"@ || is_decimal_number(body)
}

proof fn lemma_exp_index_unique(t: Seq<char>, k: int)
    requires
        0 <= k <= t.len(),
        forall|i: int| 0 <= i < k ==> !is_exp_mark(#[trigger] t[i]),
        k == t.len() || is_exp_mark(t[k]),
    ensures
        exp_index(t) == k,
    decreases t.len(),
{
    if k > 0 {
        assert(!is_exp_mark(t[0]));
        assert forall|i: int| 0 <= i < k - 1 implies !is_exp_mark(#[trigger] t.drop_first()[i]) by {
            assert(t.drop_first()[i] == t[i + 1]);
        }
        if k < t.len() {
            assert(t.drop_first()[k - 1] == t[k]);
        }
        lemma_exp_index_unique(t.drop_first(), k - 1);
    }
}

fn mantissa_ok(v: &Vec<char>, lo: usize, hi: usize) -> (r: bool)
    requires
        lo <= hi <= v@.len(),
    ensures
        r == is_mantissa(v@.subrange(lo as int, hi as int)),
{
    let ghost m = v@.subrange(lo as int, hi as int);
    let mut dot: Option<usize> = None;
    let mut digit = false;
    let mut k: usize = lo;
    while k < hi
        invariant
            lo <= k <= hi <= v@.len(),
            m == v@.subrange(lo as int, hi as int),
            forall|i: int| 0 <= i < k - lo ==> is_digit(#[trigger] m[i]) || m[i] == '.',
            dot matches Some(p) ==> lo <= p < k && m[p - lo] == '.',
            dot is None ==> forall|i: int| 0 <= i < k - lo ==> #[trigger] m[i] != '.',
            dot matches Some(p) ==> forall|i: int| 0 <= i < k - lo && #[trigger] m[i] == '.' ==> i == p - lo,
            digit <==> exists|i: int| 0 <= i < k - lo && is_digit(#[trigger] m[i]),
        decreases hi - k,
    {
        let c = v[k];
        proof {
            assert(m[k - lo] == c);
        }
        if '0' <= c && c <= '9' {
            digit = true;
        } else if c == '.' {
            if dot.is_some() {
                return false;
            }
            dot = Some(k);
        } else {
            return false;
        }
        k = k + 1;
    }
    digit
}

fn exponent_ok(v: &Vec<char>, lo: usize) -> (r: bool)
    requires
        lo <= v@.len(),
    ensures
        r == is_exponent(v@.subrange(lo as int, v@.len() as int)),
{
    let n = v.len();
    let ghost x = v@.subrange(lo as int, n as int);
    let start = if lo < n && (v[lo] == '+' || v[lo] == '-') {
        lo + 1
    } else {
        lo
    };
    proof {
        assert(unsigned_part(x) =~= v@.subrange(start as int, n as int));
    }
    if start == n {
        return false;
    }
    let mut k: usize = start;
    while k < n
        invariant
            lo <= start <= k <= n == v@.len(),
            unsigned_part(v@.subrange(lo as int, n as int)) == v@.subrange(start as int, n as int),
            forall|i: int| start <= i < k ==> is_digit(#[trigger] v@[i]),
        decreases n - k,
    {
        if !('0' <= v[k] && v[k] <= '9') {
            proof {
                assert(v@.subrange(start as int, n as int)[k - start] == v@[k as int]);
            }
            return false;
        }
        k = k + 1;
    }
    proof {
        assert forall|i: int| 0 <= i < n - start implies is_digit(
            #[trigger] v@.subrange(start as int, n as int)[i],
        ) by {
            assert(v@.subrange(start as int, n as int)[i] == v@[start + i]);
        }
    }
    true
}

fn decimal_number_ok(v: &Vec<char>) -> (r: bool)
    ensures
        r == is_decimal_number(v@),
{
    let n = v.len();
    let mut e: usize = 0;
    while e < n && !(v[e] == 'e' || v[e] == 'E')
        invariant
            e <= n == v@.len(),
            forall|i: int| 0 <= i < e ==> !is_exp_mark(#[trigger] v@[i]),
        decreases n - e,
    {
        e = e + 1;
    }
    proof {
        lemma_exp_index_unique(v@, e as int);
    }
    if !mantissa_ok(v, 0, e) {
        return false;
    }
    if e == n {
        return true;
    }
    exponent_ok(v, e + 1)
}

/// Whether a text is a float literal in the grammar of `f64::from_str`.
pub fn is_float_literal(s: &str) -> (r: bool)
    ensures
        r == is_float_text(s@),
{
    let v = chars_of(s);
    let n = v.len();
    let start: usize = if n > 0 && (v[0] == '+' || v[0] == '-') {
        1
    } else {
        0
    };
    let body = crate::text::slice_chars(&v, start, n);
    proof {
        if start == 1 {
            assert(body@ =~= v@.drop_first());
        } else {
            assert(body@ =~= v@);
        }
    }
    let folded = lower_chars(&body);
    if crate::text::chars_eq(&folded, &chars_of("inf")) || crate::text::chars_eq(
        &folded,
        &chars_of("infinity"),
    ) || crate::text::chars_eq(&folded, &chars_of("nan")) {
        return true;
    }
    decimal_number_ok(&body)
}

} // verus!
