//! Subject identifiers and their canonical, prefix- and case-insensitive form.
use vstd::prelude::*;

verus! {

/// True when `s` begins with the two characters `0x`.
pub open spec fn has_hex_prefix(s: Seq<char>) -> bool {
    s.len() >= 2 && s[0] == '0' && s[1] == 'x'
}

/// `s` with every leading `0x` removed, however many there are.
pub open spec fn strip_hex_prefixes(s: Seq<char>) -> Seq<char>
    decreases s.len(),
{
    if has_hex_prefix(s) {
        strip_hex_prefixes(s.subrange(2, s.len() as int))
    } else {
        s
    }
}

/// The ASCII lower-case form of one character; other characters are kept.
pub open spec fn ascii_lower_char(c: char) -> char {
    if 'A' <= c && c <= 'Z' {
        ((c as u32) + 32) as char
    } else {
        c
    }
}

/// The ASCII lower-case form of a character sequence.
pub open spec fn ascii_lower(s: Seq<char>) -> Seq<char> {
    Seq::new(s.len(), |i: int| ascii_lower_char(s[i]))
}

/// The canonical form of a subject: lower-cased, then stripped of its `0x` prefixes.
pub open spec fn normalized(s: Seq<char>) -> Seq<char> {
    strip_hex_prefixes(ascii_lower(s))
}

/// The ASCII lower-case form of `s`: `A` to `Z` become `a` to `z`, every
/// other character is kept.
pub fn ascii_lowercase(s: &str) -> (r: String)
    ensures
        r@ == ascii_lower(s@),
{
    let lower = "abcdefghijklmnopqrstuvwxyz";
    proof {
        reveal_strlit("abcdefghijklmnopqrstuvwxyz");
    }
    let n = s.unicode_len();
    let mut r = String::new();
    let mut i: usize = 0;
    while i < n
        invariant
            n == s@.len(),
            i <= n,
            lower@ == "abcdefghijklmnopqrstuvwxyz"@,
            lower@.len() == 26,
            forall|k: int| 0 <= k < 26 ==> #[trigger] lower@[k] == ((k + 97) as u32) as char,
            r@ == ascii_lower(s@).subrange(0, i as int),
        decreases n - i,
    {
        let c = s.get_char(i);
        let one = if 'A' <= c && c <= 'Z' {
            let k = ((c as u32) - ('A' as u32)) as usize;
            assert(lower@[k as int] == ascii_lower_char(c));
            lower.substring_char(k, k + 1)
        } else {
            s.substring_char(i, i + 1)
        };
        assert(one@ =~= seq![ascii_lower(s@)[i as int]]);
        r.append(one);
        assert(r@ =~= ascii_lower(s@).subrange(0, i + 1));
        i = i + 1;
    }
    r
}

/// `s` without its leading `0x` prefixes.
fn strip_prefixes(s: &str) -> (r: String)
    ensures
        r@ == strip_hex_prefixes(s@),
{
    let n = s.unicode_len();
    let mut i: usize = 0;
    assert(s@.subrange(0, n as int) =~= s@);
    while n - i >= 2 && s.get_char(i) == '0' && s.get_char(i + 1) == 'x'
        invariant
            n == s@.len(),
            i <= n,
            strip_hex_prefixes(s@) == strip_hex_prefixes(s@.subrange(i as int, n as int)),
        decreases n - i,
    {
        let ghost rest = s@.subrange(i as int, n as int);
        assert(rest.subrange(2, rest.len() as int) =~= s@.subrange(i + 2, n as int));
        i = i + 2;
    }
    let ghost rest = s@.subrange(i as int, n as int);
    assert(!has_hex_prefix(rest));
    s.substring_char(i, n).to_owned()
}

/// The canonical key of a subject, which names its working directory and its
/// registry entry: lower-cased, then stripped of its leading `0x` prefixes.
pub fn address_to_filename(address: &str) -> (r: String)
    ensures
        r@ == normalized(address@),
{
    let lower = ascii_lowercase(address);
    strip_prefixes(lower.as_str())
}

/// The canonical key of a subject; the same as `address_to_filename`.
pub fn normalize_subject(subject: &str) -> (r: String)
    ensures
        r@ == normalized(subject@),
{
    address_to_filename(subject)
}

/// A `0x` prefix, in either case, does not change a subject's canonical form.
pub proof fn lemma_prefix_insensitive(s: Seq<char>)
    ensures
        normalized(seq!['0', 'x'] + s) == normalized(s),
        normalized(seq!['0', 'X'] + s) == normalized(s),
{
    let p = seq!['0', 'x'];
    let q = seq!['0', 'X'];
    assert(ascii_lower(p + s) =~= p + ascii_lower(s));
    assert(ascii_lower(q + s) =~= p + ascii_lower(s));
    assert((p + ascii_lower(s)).subrange(2, (p + ascii_lower(s)).len() as int) =~= ascii_lower(s));
}

/// Subjects that differ only in the case of ASCII letters share one canonical form.
pub proof fn lemma_case_insensitive(s: Seq<char>, t: Seq<char>)
    requires
        ascii_lower(s) == ascii_lower(t),
    ensures
        normalized(s) == normalized(t),
{
}

} // verus!
