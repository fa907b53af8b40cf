//! Decimal and hexadecimal digits, as characters and as values.
use vstd::prelude::*;

verus! {

pub open spec fn is_digit(c: char) -> bool {
    '0' <= c && c <= '9'
}

pub open spec fn digit_value(c: char) -> nat {
    ((c as u32) - ('0' as u32)) as nat
}

pub open spec fn is_hex_digit(c: char) -> bool {
    is_digit(c) || ('a' <= c && c <= 'f') || ('A' <= c && c <= 'F')
}

/// The value of a hexadecimal digit, in either case.
pub open spec fn hex_digit_value(c: char) -> nat {
    if is_digit(c) {
        digit_value(c)
    } else if 'a' <= c && c <= 'f' {
        ((c as u32) - ('a' as u32) + 10) as nat
    } else {
        ((c as u32) - ('A' as u32) + 10) as nat
    }
}

pub open spec fn all_digits(s: Seq<char>) -> bool {
    forall|i: int| 0 <= i < s.len() ==> is_digit(#[trigger] s[i])
}

pub open spec fn all_hex_digits(s: Seq<char>) -> bool {
    forall|i: int| 0 <= i < s.len() ==> is_hex_digit(#[trigger] s[i])
}

/// The number that a string of decimal digits writes, most significant first.
pub open spec fn decimal_value(s: Seq<char>) -> nat
    decreases s.len(),
{
    if s.len() == 0 {
        0
    } else {
        10 * decimal_value(s.drop_last()) + digit_value(s.last())
    }
}

/// The lower-case hexadecimal digit for a value below sixteen.
pub open spec fn hex_char(v: nat) -> char {
    if v < 10 {
        ((v + ('0' as u32)) as u32) as char
    } else {
        ((v - 10 + ('a' as u32)) as u32) as char
    }
}

pub fn is_digit_char(c: char) -> (r: bool)
    ensures
        r == is_digit(c),
{
    '0' <= c && c <= '9'
}

pub fn is_hex_digit_char(c: char) -> (r: bool)
    ensures
        r == is_hex_digit(c),
{
    ('0' <= c && c <= '9') || ('a' <= c && c <= 'f') || ('A' <= c && c <= 'F')
}

pub fn digit_of(c: char) -> (r: u8)
    requires
        is_digit(c),
    ensures
        r as nat == digit_value(c),
        r < 10,
{
    ((c as u32) - ('0' as u32)) as u8
}

pub fn hex_digit_of(c: char) -> (r: u8)
    requires
        is_hex_digit(c),
    ensures
        r as nat == hex_digit_value(c),
        r < 16,
{
    if '0' <= c && c <= '9' {
        ((c as u32) - ('0' as u32)) as u8
    } else if 'a' <= c && c <= 'f' {
        ((c as u32) - ('a' as u32) + 10) as u8
    } else {
        ((c as u32) - ('A' as u32) + 10) as u8
    }
}

/// Appends the lower-case hexadecimal digit for `d` (a decimal digit when `d < 10`).
pub fn append_hex_char(s: &mut String, d: u8)
    requires
        d < 16,
    ensures
        final(s)@ == old(s)@.push(hex_char(d as nat)),
{
    let table = "0123456789abcdef";
    proof {
        reveal_strlit("0123456789abcdef");
    }
    let one = table.substring_char(d as usize, d as usize + 1);
    assert(table@[d as int] == hex_char(d as nat));
    assert(one@ =~= seq![hex_char(d as nat)]);
    s.append(one);
}

/// The lower-case hexadecimal digits of `v`, most significant first, without
/// leading zeros (`0` for zero).
pub open spec fn hex_digits_of(v: nat) -> Seq<char>
    decreases v,
{
    if v < 16 {
        seq![hex_char(v)]
    } else {
        hex_digits_of(v / 16).push(hex_char(v % 16))
    }
}

/// The decimal digits of `v`, most significant first, without leading zeros
/// (`0` for zero).
pub open spec fn decimal_digits_of(v: nat) -> Seq<char>
    decreases v,
{
    if v < 10 {
        seq![hex_char(v)]
    } else {
        decimal_digits_of(v / 10).push(hex_char(v % 10))
    }
}

/// Appends the digits of `v` in base `b` (ten or sixteen), most significant first.
fn append_digits(s: &mut String, v: u64, b: u64)
    requires
        b == 10 || b == 16,
    ensures
        b == 10 ==> final(s)@ == old(s)@ + decimal_digits_of(v as nat),
        b == 16 ==> final(s)@ == old(s)@ + hex_digits_of(v as nat),
    decreases v,
{
    if v >= b {
        append_digits(s, v / b, b);
    }
    let ghost mid = s@;
    append_hex_char(s, (v % b) as u8);
    proof {
        if v >= b {
            if b == 10 {
                assert(decimal_digits_of(v as nat) == decimal_digits_of((v / b) as nat).push(
                    hex_char((v % b) as nat),
                ));
                assert(old(s)@ + decimal_digits_of(v as nat) =~= s@);
            } else {
                assert(hex_digits_of(v as nat) == hex_digits_of((v / b) as nat).push(
                    hex_char((v % b) as nat),
                ));
                assert(old(s)@ + hex_digits_of(v as nat) =~= s@);
            }
        } else if b == 10 {
            assert(old(s)@ + decimal_digits_of(v as nat) =~= s@);
        } else {
            assert(old(s)@ + hex_digits_of(v as nat) =~= s@);
        }
    }
}

/// Appends the decimal digits of `v`.
pub fn append_decimal(s: &mut String, v: u64)
    ensures
        final(s)@ == old(s)@ + decimal_digits_of(v as nat),
{
    append_digits(s, v, 10);
}

/// Appends the lower-case hexadecimal digits of `v`.
pub fn append_hex(s: &mut String, v: u64)
    ensures
        final(s)@ == old(s)@ + hex_digits_of(v as nat),
{
    append_digits(s, v, 16);
}

/// How many decimal digits `s` begins with.
pub open spec fn leading_digits(s: Seq<char>) -> nat
    decreases s.len(),
{
    if s.len() > 0 && is_digit(s[0]) {
        1 + leading_digits(s.subrange(1, s.len() as int))
    } else {
        0
    }
}

/// The characters of `s` from position `i` on.
pub open spec fn tail(s: Seq<char>, i: int) -> Seq<char> {
    s.subrange(i, s.len() as int)
}

/// Ten to the power `n`.
pub open spec fn pow10(n: nat) -> nat
    decreases n,
{
    if n == 0 {
        1
    } else {
        10 * pow10((n - 1) as nat)
    }
}

pub proof fn lemma_pow10_twenty_exceeds_u64(n: nat)
    requires
        n >= 20,
    ensures
        pow10(n) > u64::MAX,
    decreases n,
{
    if n == 20 {
        reveal_with_fuel(pow10, 21);
    } else {
        lemma_pow10_twenty_exceeds_u64((n - 1) as nat);
    }
}

/// Counts the decimal digits that begin at position `from`.
pub fn count_digits(s: &str, from: usize) -> (k: usize)
    requires
        from <= s@.len(),
    ensures
        k == leading_digits(tail(s@, from as int)),
        from + k <= s@.len(),
        all_digits(s@.subrange(from as int, from + k)),
        from + k < s@.len() ==> !is_digit(s@[from + k]),
{
    let n = s.unicode_len();
    let mut k: usize = 0;
    assert(tail(s@, from as int).subrange(0, 0) =~= Seq::<char>::empty());
    while from + k < n && is_digit_char(s.get_char(from + k))
        invariant
            n == s@.len(),
            from + k <= n,
            leading_digits(tail(s@, from as int)) == k + leading_digits(tail(s@, from + k)),
            forall|t: int| from <= t < from + k ==> is_digit(#[trigger] s@[t]),
        decreases n - from - k,
    {
        let ghost r = tail(s@, from + k);
        assert(r.subrange(1, r.len() as int) =~= tail(s@, from + k + 1));
        k = k + 1;
    }
    let ghost r = tail(s@, from + k);
    assert(r.len() == 0 || r[0] == s@[from + k]);
    assert(all_digits(s@.subrange(from as int, from + k))) by {
        assert(forall|t: int|
            0 <= t < k ==> #[trigger] s@.subrange(from as int, from + k)[t] == s@[from + t]);
    }
    k
}

} // verus!
