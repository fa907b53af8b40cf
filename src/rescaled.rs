//! Rescaled outputs: a non-negative number, as text, times 1000 and rounded.
use vstd::prelude::*;
use crate::digits::{
    all_digits, count_digits, decimal_value, digit_of, digit_value, leading_digits,
    lemma_pow10_twenty_exceeds_u64, pow10, tail,
};

verus! {

/// The length of an optional leading `+`.
pub open spec fn sign_len(s: Seq<char>) -> int {
    if s.len() > 0 && s[0] == '+' {
        1
    } else {
        0
    }
}

/// How many digits stand before the decimal point.
pub open spec fn int_len(s: Seq<char>) -> int {
    leading_digits(tail(s, sign_len(s))) as int
}

/// Where the decimal point stands, if there is one.
pub open spec fn point_at(s: Seq<char>) -> int {
    sign_len(s) + int_len(s)
}

pub open spec fn has_point(s: Seq<char>) -> bool {
    point_at(s) < s.len() && s[point_at(s)] == '.'
}

/// How many digits follow the decimal point.
pub open spec fn frac_len(s: Seq<char>) -> int {
    if has_point(s) {
        leading_digits(tail(s, point_at(s) + 1)) as int
    } else {
        0
    }
}

/// Where the digits and the point end.
pub open spec fn mantissa_end(s: Seq<char>) -> int {
    if has_point(s) {
        point_at(s) + 1 + frac_len(s)
    } else {
        point_at(s)
    }
}

/// The length of an optional sign after the exponent mark.
pub open spec fn exp_sign_len(s: Seq<char>) -> int {
    let e = mantissa_end(s);
    if e + 1 < s.len() && (s[e + 1] == '+' || s[e + 1] == '-') {
        1
    } else {
        0
    }
}

pub open spec fn exp_negative(s: Seq<char>) -> bool {
    exp_sign_len(s) == 1 && s[mantissa_end(s) + 1] == '-'
}

pub open spec fn exp_start(s: Seq<char>) -> int {
    mantissa_end(s) + 1 + exp_sign_len(s)
}

pub open spec fn exp_len(s: Seq<char>) -> int {
    leading_digits(tail(s, exp_start(s))) as int
}

/// A non-negative finite number as text: an optional `+`, digits with an
/// optional decimal point (at least one digit, on either side of the point),
/// then optionally `e` or `E`, an optional sign, and digits.
pub open spec fn well_formed_float(s: Seq<char>) -> bool {
    &&& int_len(s) + frac_len(s) >= 1
    &&& mantissa_end(s) < s.len() ==> {
        &&& s[mantissa_end(s)] == 'e' || s[mantissa_end(s)] == 'E'
        &&& exp_len(s) >= 1
        &&& exp_start(s) + exp_len(s) == s.len()
    }
}

/// The digits of the number, without the point.
pub open spec fn mantissa(s: Seq<char>) -> Seq<char> {
    s.subrange(sign_len(s), point_at(s)) + if has_point(s) {
        s.subrange(point_at(s) + 1, point_at(s) + 1 + frac_len(s))
    } else {
        Seq::empty()
    }
}

/// The exponent's value, with its sign (zero without an exponent).
pub open spec fn exponent(s: Seq<char>) -> int {
    if mantissa_end(s) < s.len() {
        let v = decimal_value(s.subrange(exp_start(s), exp_start(s) + exp_len(s)));
        if exp_negative(s) {
            -v
        } else {
            v as int
        }
    } else {
        0
    }
}

/// The digit of `m` at position `i`, and zero beyond either end.
pub open spec fn padded_digit(m: Seq<char>, i: int) -> nat {
    if 0 <= i < m.len() {
        digit_value(m[i])
    } else {
        0
    }
}

/// The number that the first `p` digits of `m` write, continued with zeros
/// where `p` passes its end; zero where `p` is not positive.
pub open spec fn shifted_value(m: Seq<char>, p: int) -> nat
    decreases p,
{
    if p <= 0 {
        0
    } else {
        10 * shifted_value(m, p - 1) + padded_digit(m, p - 1)
    }
}

/// Where the point falls once the number is multiplied by 1000.
pub open spec fn scaled_point(s: Seq<char>) -> int {
    int_len(s) + 3 + exponent(s)
}

/// A well-formed number times 1000, rounded to the nearest integer, half up:
/// the digits before the shifted point, plus one where the first digit after
/// it is five or more.
pub open spec fn scaled_float(s: Seq<char>) -> nat {
    let m = mantissa(s);
    let p = scaled_point(s);
    shifted_value(m, p) + if padded_digit(m, p) >= 5 {
        1nat
    } else {
        0nat
    }
}

/// The score that a rescaled output encodes: the number times 1000, rounded,
/// when the text is a well-formed non-negative finite number and the result
/// fits in 64 bits.
pub open spec fn rescaled_value(s: Seq<char>) -> Option<u64> {
    if well_formed_float(s) && scaled_float(s) <= u64::MAX {
        Some(scaled_float(s) as u64)
    } else {
        None
    }
}

/// Exponents at or above this bound behave alike: they shift every digit
/// past any position that the decoding reads.
pub const EXPONENT_BOUND: u128 = 1180591620717411303424;

/// The value of the digits `s[from..from + len]`, or the bound where it is larger.
fn saturated_decimal(s: &str, from: usize, len: usize) -> (r: u128)
    requires
        from + len <= s@.len(),
        all_digits(s@.subrange(from as int, from + len)),
    ensures
        r as nat == if decimal_value(s@.subrange(from as int, from + len))
            < EXPONENT_BOUND {
            decimal_value(s@.subrange(from as int, from + len))
        } else {
            EXPONENT_BOUND as nat
        },
{
    let n = s.unicode_len();
    let mut acc: u128 = 0;
    let mut i: usize = 0;
    assert(s@.subrange(from as int, from as int) =~= Seq::<char>::empty());
    while i < len
        invariant
            n == s@.len(),
            from + len <= n,
            all_digits(s@.subrange(from as int, from + len)),
            i <= len,
            acc as nat == if decimal_value(s@.subrange(from as int, from + i))
                < EXPONENT_BOUND {
                decimal_value(s@.subrange(from as int, from + i))
            } else {
                EXPONENT_BOUND as nat
            },
        decreases len - i,
    {
        let c = s.get_char(from + i);
        assert(s@.subrange(from as int, from + len)[i as int] == c);
        let d = digit_of(c);
        assert(s@.subrange(from as int, from + i + 1).drop_last() =~= s@.subrange(
            from as int,
            from + i,
        ));
        let next = acc * 10 + d as u128;
        acc = if next < EXPONENT_BOUND {
            next
        } else {
            EXPONENT_BOUND
        };
        i = i + 1;
    }
    acc
}

/// Where the parts of a well-formed number stand, and its exponent, saturated.
struct FloatScan {
    start: usize,
    int_len: usize,
    frac_start: usize,
    frac_len: usize,
    negative: bool,
    exp: u128,
}

spec fn scan_matches(s: Seq<char>, f: FloatScan) -> bool {
    &&& f.start + f.int_len <= f.frac_start
    &&& f.frac_start + f.frac_len <= s.len()
    &&& f.int_len + f.frac_len >= 1
    &&& f.int_len as int == int_len(s)
    &&& mantissa(s) == s.subrange(f.start as int, f.start + f.int_len) + s.subrange(
        f.frac_start as int,
        f.frac_start + f.frac_len,
    )
    &&& all_digits(mantissa(s))
    &&& f.exp <= EXPONENT_BOUND
    &&& f.exp < EXPONENT_BOUND ==> scaled_point(s) == f.int_len + 3 + if f.negative {
        -(f.exp as int)
    } else {
        f.exp as int
    }
    &&& f.exp == EXPONENT_BOUND && f.negative ==> scaled_point(s) <= f.int_len + 3
        - EXPONENT_BOUND
    &&& f.exp == EXPONENT_BOUND && !f.negative ==> scaled_point(s) >= f.int_len + 3
        + EXPONENT_BOUND
}

proof fn lemma_all_digits_concat(a: Seq<char>, b: Seq<char>)
    requires
        all_digits(a),
        all_digits(b),
    ensures
        all_digits(a + b),
{
    assert(forall|t: int| 0 <= t < a.len() ==> #[trigger] (a + b)[t] == a[t]);
    assert(forall|t: int|
        a.len() <= t < a.len() + b.len() ==> #[trigger] (a + b)[t] == b[t - a.len()]);
}

/// Reads the structure of a number's text.
#[verifier::rlimit(40)]
fn scan_float(s: &str) -> (r: Option<FloatScan>)
    ensures
        r is Some <==> well_formed_float(s@),
        r matches Some(f) ==> scan_matches(s@, f),
{
    let n = s.unicode_len();
    let sl: usize = if n > 0 && s.get_char(0) == '+' {
        1
    } else {
        0
    };
    let il = count_digits(s, sl);
    let q = sl + il;
    let hp = q < n && s.get_char(q) == '.';
    assert(hp == has_point(s@));
    let fl: usize = if hp {
        count_digits(s, q + 1)
    } else {
        0
    };
    let fs: usize = if hp {
        q + 1
    } else {
        q
    };
    let me: usize = fs + fl;
    assert(me == mantissa_end(s@));
    if il + fl == 0 {
        return None;
    }
    proof {
        assert(mantissa(s@) =~= s@.subrange(sl as int, sl + il) + s@.subrange(
            fs as int,
            fs + fl,
        ));
        lemma_all_digits_concat(
            s@.subrange(sl as int, sl + il),
            s@.subrange(fs as int, fs + fl),
        );
    }
    if me == n {
        return Some(FloatScan { start: sl, int_len: il, frac_start: fs, frac_len: fl, negative: false, exp: 0 });
    }
    let c = s.get_char(me);
    if c != 'e' && c != 'E' {
        return None;
    }
    let esl: usize = if me + 1 < n && (s.get_char(me + 1) == '+' || s.get_char(me + 1) == '-') {
        1
    } else {
        0
    };
    let negative = esl == 1 && s.get_char(me + 1) == '-';
    let es = me + 1 + esl;
    assert(es == exp_start(s@) && negative == exp_negative(s@));
    let el = count_digits(s, es);
    if el == 0 || es + el != n {
        return None;
    }
    let exp = saturated_decimal(s, es, el);
    Some(FloatScan { start: sl, int_len: il, frac_start: fs, frac_len: fl, negative, exp })
}

/// The mantissa's digit at position `i`, and zero past its end.
fn mantissa_digit(s: &str, f: &FloatScan, i: i128) -> (d: u128)
    requires
        scan_matches(s@, *f),
        i >= 0,
    ensures
        d as nat == padded_digit(mantissa(s@), i as int),
        d < 10,
{
    let n = s.unicode_len();
    let ghost m = mantissa(s@);
    let ghost a = s@.subrange(f.start as int, f.start + f.int_len);
    let ghost b = s@.subrange(f.frac_start as int, f.frac_start + f.frac_len);
    let il = f.int_len as i128;
    let fl = f.frac_len as i128;
    if i >= il + fl {
        return 0;
    }
    let c = if i < il {
        assert(m[i as int] == a[i as int]);
        s.get_char(f.start + i as usize)
    } else {
        assert(m[i as int] == b[i - il]);
        s.get_char(f.frac_start + (i - il) as usize)
    };
    assert(m[i as int] == c);
    assert(crate::digits::is_digit(m[i as int]));
    digit_of(c) as u128
}

proof fn lemma_shifted_monotone(m: Seq<char>, i: int, j: int)
    requires
        i <= j,
    ensures
        shifted_value(m, i) <= shifted_value(m, j),
    decreases j - i,
{
    if i < j {
        lemma_shifted_monotone(m, i, j - 1);
    }
}

proof fn lemma_shifted_zero_beyond(m: Seq<char>, i: int, j: int)
    requires
        m.len() <= i <= j,
        shifted_value(m, i) == 0,
    ensures
        shifted_value(m, j) == 0,
    decreases j - i,
{
    if i < j {
        lemma_shifted_zero_beyond(m, i, j - 1);
    }
}

proof fn lemma_pow10_monotone(a: nat, b: nat)
    requires
        a <= b,
    ensures
        pow10(a) <= pow10(b),
    decreases b,
{
    if a < b {
        lemma_pow10_monotone(a, (b - 1) as nat);
    }
}

/// The digits before the shifted point, or `None` where they exceed 64 bits.
fn shifted_digits(s: &str, f: &FloatScan, p: i128) -> (r: Option<u64>)
    requires
        scan_matches(s@, *f),
        f.exp < EXPONENT_BOUND ==> scaled_point(s@) == p,
        f.exp == EXPONENT_BOUND && f.negative ==> scaled_point(s@) <= p && p < 0,
        f.exp == EXPONENT_BOUND && !f.negative ==> scaled_point(s@) >= p && p > f.int_len
            + f.frac_len + 20,
    ensures
        r == if shifted_value(mantissa(s@), scaled_point(s@)) <= u64::MAX {
            Some(shifted_value(mantissa(s@), scaled_point(s@)) as u64)
        } else {
            None
        },
{
    let n = s.unicode_len();
    let ghost m = mantissa(s@);
    let ghost tp = scaled_point(s@);
    let mlen: i128 = (f.int_len + f.frac_len) as i128;
    assert(m.len() == mlen);
    let mut acc: u128 = 0;
    let mut i: i128 = 0;
    while i < p && !(acc == 0 && i >= mlen)
        invariant
            scan_matches(s@, *f),
            m == mantissa(s@),
            m.len() == mlen,
            tp == scaled_point(s@),
            f.exp < EXPONENT_BOUND ==> tp == p,
            f.exp == EXPONENT_BOUND && f.negative ==> tp <= p && p < 0,
            f.exp == EXPONENT_BOUND && !f.negative ==> tp >= p && p > mlen + 20,
            0 <= i,
            p >= 0 ==> i <= p,
            p < 0 ==> i == 0,
            acc <= u64::MAX,
            acc as nat == shifted_value(m, i as int),
            i >= mlen && acc > 0 ==> acc >= pow10((i - mlen) as nat),
        decreases p - i,
    {
        let d = mantissa_digit(s, f, i);
        let next = acc * 10 + d;
        if next > u64::MAX as u128 {
            proof {
                assert(tp >= i + 1);
                lemma_shifted_monotone(m, i + 1, tp);
            }
            return None;
        }
        proof {
            if i + 1 >= mlen && next > 0 {
                if i >= mlen {
                    assert(pow10((i + 1 - mlen) as nat) == 10 * pow10((i - mlen) as nat));
                } else {
                    assert(pow10(0) == 1);
                }
            }
        }
        acc = next;
        i = i + 1;
    }
    proof {
        if acc == 0 && i >= mlen && i < p {
            lemma_shifted_zero_beyond(m, i as int, tp);
        } else if f.exp == EXPONENT_BOUND && !f.negative {
            if acc > 0 {
                lemma_pow10_monotone(20, (i - mlen) as nat);
                lemma_pow10_twenty_exceeds_u64(20);
            }
            lemma_shifted_zero_beyond(m, i as int, tp);
        }
    }
    Some(acc as u64)
}

/// Decodes a rescaled output: a non-negative number times 1000, rounded half up.
pub fn decode_rescaled(s: &str) -> (r: Option<u64>)
    ensures
        r == rescaled_value(s@),
{
    let f = match scan_float(s) {
        Some(f) => f,
        None => {
            return None;
        },
    };
    let il = f.int_len as i128;
    let p: i128 = if f.negative {
        il + 3 - (f.exp as i128)
    } else {
        il + 3 + (f.exp as i128)
    };
    let whole = match shifted_digits(s, &f, p) {
        Some(w) => w,
        None => {
            return None;
        },
    };
    let ghost tp = scaled_point(s@);
    assert(padded_digit(mantissa(s@), tp) == padded_digit(mantissa(s@), p as int)) by {
        if tp != p {
            assert(tp < 0 || tp >= mantissa(s@).len());
        }
    }
    let up: u64 = if p >= 0 && mantissa_digit(s, &f, p) >= 5 {
        1
    } else {
        0
    };
    if whole == u64::MAX && up == 1 {
        return None;
    }
    Some(whole + up)
}

} // verus!
