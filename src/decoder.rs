//! Extraction of the committed public score from the prover's result documents.
//!
//! The prover writes its output in several shapes, depending on its version.
//! The decoder tries them in a fixed order and records which one gave the score.
use vstd::prelude::*;
use crate::digits::{
    all_hex_digits, hex_digit_of, hex_digit_value, is_hex_digit, is_hex_digit_char,
};
use crate::rescaled::{decode_rescaled, rescaled_value, scaled_float, well_formed_float};
use crate::subject::has_hex_prefix;

verus! {

/// `s` without one leading `0x`, if it has one.
pub open spec fn strip_hex_prefix(s: Seq<char>) -> Seq<char> {
    if has_hex_prefix(s) {
        s.subrange(2, s.len() as int)
    } else {
        s
    }
}

/// The byte that two hexadecimal digits write, the high digit first.
pub open spec fn hex_byte(hi: char, lo: char) -> nat {
    16 * hex_digit_value(hi) + hex_digit_value(lo)
}

/// The number written by hexadecimal digit pairs taken as bytes, least
/// significant byte first.
pub open spec fn little_endian_value(d: Seq<char>) -> nat
    decreases d.len(),
{
    if d.len() < 2 {
        0
    } else {
        hex_byte(d[0], d[1]) + 256 * little_endian_value(d.subrange(2, d.len() as int))
    }
}

/// The score that a public-instance entry encodes: after an optional `0x`, a
/// non-empty, even number of hexadecimal digits, read as little-endian bytes,
/// whose value fits in 64 bits.
pub open spec fn primary_instance_value(s: Seq<char>) -> Option<u64> {
    let d = strip_hex_prefix(s);
    if d.len() > 0 && d.len() % 2 == 0 && all_hex_digits(d) && little_endian_value(d) <= u64::MAX {
        Some(little_endian_value(d) as u64)
    } else {
        None
    }
}

/// The score that a raw witness output encodes: after an optional `0x`, its
/// first four hexadecimal digits, read most significant first.
pub open spec fn raw_output_value(s: Seq<char>) -> Option<u64> {
    let d = strip_hex_prefix(s);
    if d.len() >= 4 && all_hex_digits(d.subrange(0, 4)) {
        let v = 4096 * hex_digit_value(d[0]) + 256 * hex_digit_value(d[1]) + 16
            * hex_digit_value(d[2]) + hex_digit_value(d[3]);
        Some(v as u64)
    } else {
        None
    }
}

/// The score recorded when no field of the result documents gives one.
pub const FALLBACK_SCORE: u64 = 0;

/// Which field of the result documents a score was read from.
#[derive(Clone, Copy, Debug, PartialEq, Eq, Structural)]
pub enum ScoreSource {
    PrimaryInstance,
    RawOutputHex,
    RescaledText,
    RescaledNumber,
    Fallback,
}

/// The public score of one proof, with the field it came from.
#[derive(Clone, Copy, Debug, PartialEq, Eq, Structural)]
pub struct ExtractedScore {
    pub value: u64,
    pub source: ScoreSource,
}

/// What the decoder reads of a proof document: the first entry of its first
/// public-instance array, where that entry is a string.
pub struct ProofDocument {
    pub first_instance: Option<String>,
}

/// The human-readable rescaled output, as the document holds it: a string, or a
/// number (kept as its decimal text).
pub enum RescaledOutput {
    Text(String),
    Number(String),
}

/// What the decoder reads of a witness document: its first raw output entry,
/// and its first rescaled output entry.
pub struct WitnessDocument {
    pub first_output: Option<String>,
    pub rescaled_output: Option<RescaledOutput>,
}

pub open spec fn primary_of(proof: ProofDocument) -> Option<u64> {
    match proof.first_instance {
        Some(s) => primary_instance_value(s@),
        None => None,
    }
}

pub open spec fn raw_output_of(witness: WitnessDocument) -> Option<u64> {
    match witness.first_output {
        Some(s) => raw_output_value(s@),
        None => None,
    }
}

pub open spec fn rescaled_of(witness: WitnessDocument) -> Option<u64> {
    match witness.rescaled_output {
        Some(RescaledOutput::Text(s)) => rescaled_value(s@),
        Some(RescaledOutput::Number(s)) => rescaled_value(s@),
        None => None,
    }
}

/// The score of a proof: the first of the primary instance, the raw output, the
/// rescaled output that yields a value; else the flagged fallback.
pub open spec fn decoded(proof: ProofDocument, witness: WitnessDocument) -> ExtractedScore {
    if let Some(v) = primary_of(proof) {
        ExtractedScore { value: v, source: ScoreSource::PrimaryInstance }
    } else if let Some(v) = raw_output_of(witness) {
        ExtractedScore { value: v, source: ScoreSource::RawOutputHex }
    } else if let Some(v) = rescaled_of(witness) {
        ExtractedScore {
            value: v,
            source: match witness.rescaled_output {
                Some(RescaledOutput::Number(_)) => ScoreSource::RescaledNumber,
                _ => ScoreSource::RescaledText,
            },
        }
    } else {
        ExtractedScore { value: FALLBACK_SCORE, source: ScoreSource::Fallback }
    }
}

impl ExtractedScore {
    /// Whether the score is the fallback rather than a value read from a document.
    pub fn is_degraded(&self) -> (r: bool)
        ensures
            r == (self.source == ScoreSource::Fallback),
    {
        match self.source {
            ScoreSource::Fallback => true,
            _ => false,
        }
    }
}

/// Where the digits begin once an optional `0x` is skipped.
fn hex_prefix_len(s: &str) -> (p: usize)
    ensures
        p <= s@.len(),
        strip_hex_prefix(s@) == s@.subrange(p as int, s@.len() as int),
{
    let n = s.unicode_len();
    if n >= 2 && s.get_char(0) == '0' && s.get_char(1) == 'x' {
        2
    } else {
        assert(s@.subrange(0, n as int) =~= s@);
        0
    }
}

proof fn lemma_little_endian_suffix_le(d: Seq<char>, i: int)
    requires
        0 <= i <= d.len(),
        i % 2 == 0,
        d.len() % 2 == 0,
    ensures
        little_endian_value(d.subrange(i, d.len() as int)) <= little_endian_value(d),
    decreases i,
{
    if i == 0 {
        assert(d.subrange(0, d.len() as int) =~= d);
    } else {
        lemma_little_endian_suffix_le(d, i - 2);
        let suf = d.subrange(i - 2, d.len() as int);
        assert(suf.subrange(2, suf.len() as int) =~= d.subrange(i, d.len() as int));
    }
}

proof fn lemma_little_endian_step(d: Seq<char>, i: int)
    requires
        2 <= i <= d.len(),
    ensures
        little_endian_value(d.subrange(i - 2, d.len() as int)) == hex_byte(d[i - 2], d[i - 1])
            + 256 * little_endian_value(d.subrange(i, d.len() as int)),
{
    let suf = d.subrange(i - 2, d.len() as int);
    assert(suf.subrange(2, suf.len() as int) =~= d.subrange(i, d.len() as int));
}

/// Decodes a public-instance entry: little-endian hexadecimal bytes.
pub fn decode_primary_instance(s: &str) -> (r: Option<u64>)
    ensures
        r == primary_instance_value(s@),
{
    let n = s.unicode_len();
    let p = hex_prefix_len(s);
    let ghost d = strip_hex_prefix(s@);
    let m = n - p;
    if m == 0 || m % 2 != 0 {
        return None;
    }
    let mut j: usize = 0;
    while j < m
        invariant
            n == s@.len(),
            p + m == n,
            d == s@.subrange(p as int, n as int),
            d == strip_hex_prefix(s@),
            j <= m,
            forall|t: int| 0 <= t < j ==> is_hex_digit(#[trigger] d[t]),
        decreases m - j,
    {
        let c = s.get_char(p + j);
        assert(d[j as int] == c);
        if !is_hex_digit_char(c) {
            assert(!all_hex_digits(d));
            return None;
        }
        j = j + 1;
    }
    assert(all_hex_digits(d));
    let mut acc: u128 = 0;
    let mut i: usize = m;
    assert(d.subrange(m as int, m as int).len() == 0);
    while i > 0
        invariant
            n == s@.len(),
            p + m == n,
            d == s@.subrange(p as int, n as int),
            d == strip_hex_prefix(s@),
            m % 2 == 0,
            i <= m,
            i % 2 == 0,
            all_hex_digits(d),
            acc <= u64::MAX,
            acc as nat == little_endian_value(d.subrange(i as int, m as int)),
        decreases i,
    {
        let ch = s.get_char(p + i - 2);
        let cl = s.get_char(p + i - 1);
        assert(d[i - 2] == ch && d[i - 1] == cl);
        assert(is_hex_digit(d[i - 2]) && is_hex_digit(d[i - 1]));
        let hi = hex_digit_of(ch);
        let lo = hex_digit_of(cl);
        let next: u128 = (hi as u128) * 16 + (lo as u128) + 256 * acc;
        proof {
            lemma_little_endian_step(d, i as int);
        }
        if next > u64::MAX as u128 {
            proof {
                lemma_little_endian_suffix_le(d, i - 2);
            }
            return None;
        }
        acc = next;
        i = i - 2;
    }
    assert(d.subrange(0, m as int) =~= d);
    Some(acc as u64)
}

/// Decodes a raw witness output: its first four hexadecimal digits, most
/// significant first.
pub fn decode_raw_output(s: &str) -> (r: Option<u64>)
    ensures
        r == raw_output_value(s@),
{
    let n = s.unicode_len();
    let p = hex_prefix_len(s);
    let ghost d = strip_hex_prefix(s@);
    if n - p < 4 {
        return None;
    }
    let c0 = s.get_char(p);
    let c1 = s.get_char(p + 1);
    let c2 = s.get_char(p + 2);
    let c3 = s.get_char(p + 3);
    assert(d[0] == c0 && d[1] == c1 && d[2] == c2 && d[3] == c3);
    if !(is_hex_digit_char(c0) && is_hex_digit_char(c1) && is_hex_digit_char(c2)
        && is_hex_digit_char(c3)) {
        assert(!all_hex_digits(d.subrange(0, 4))) by {
            let h = d.subrange(0, 4);
            assert(h[0] == c0 && h[1] == c1 && h[2] == c2 && h[3] == c3);
        }
        return None;
    }
    let h0 = hex_digit_of(c0) as u64;
    let h1 = hex_digit_of(c1) as u64;
    let h2 = hex_digit_of(c2) as u64;
    let h3 = hex_digit_of(c3) as u64;
    Some(4096 * h0 + 256 * h1 + 16 * h2 + h3)
}

/// Decodes the public score from a proof and its witness, trying in order the
/// primary public instance, the raw output, and the rescaled output; where none
/// of them yields a value, the fallback score, flagged as such.
pub fn extract_score(proof: &ProofDocument, witness: &WitnessDocument) -> (r: ExtractedScore)
    ensures
        r == decoded(*proof, *witness),
{
    if let Some(s) = &proof.first_instance {
        if let Some(v) = decode_primary_instance(s.as_str()) {
            return ExtractedScore { value: v, source: ScoreSource::PrimaryInstance };
        }
    }
    if let Some(s) = &witness.first_output {
        if let Some(v) = decode_raw_output(s.as_str()) {
            return ExtractedScore { value: v, source: ScoreSource::RawOutputHex };
        }
    }
    match &witness.rescaled_output {
        Some(RescaledOutput::Text(s)) => {
            if let Some(v) = decode_rescaled(s.as_str()) {
                return ExtractedScore { value: v, source: ScoreSource::RescaledText };
            }
        },
        Some(RescaledOutput::Number(s)) => {
            if let Some(v) = decode_rescaled(s.as_str()) {
                return ExtractedScore { value: v, source: ScoreSource::RescaledNumber };
            }
        },
        None => {},
    }
    ExtractedScore { value: FALLBACK_SCORE, source: ScoreSource::Fallback }
}

/// A valid primary instance decides the score, whatever the witness holds.
pub proof fn lemma_primary_instance_takes_priority(
    proof: ProofDocument,
    witness: WitnessDocument,
    v: u64,
)
    requires
        primary_of(proof) == Some(v),
    ensures
        decoded(proof, witness) == (ExtractedScore {
            value: v,
            source: ScoreSource::PrimaryInstance,
        }),
{
}

/// Where neither the primary instance nor the raw output yields a value, a
/// rescaled numeric output `t` gives the score `t` times 1000, rounded.
pub proof fn lemma_rescaled_number_fallback(
    proof: ProofDocument,
    witness: WitnessDocument,
    t: String,
)
    requires
        primary_of(proof).is_none(),
        raw_output_of(witness).is_none(),
        witness.rescaled_output == Some(RescaledOutput::Number(t)),
        well_formed_float(t@),
        scaled_float(t@) <= u64::MAX,
    ensures
        decoded(proof, witness) == (ExtractedScore {
            value: scaled_float(t@) as u64,
            source: ScoreSource::RescaledNumber,
        }),
{
}

} // verus!
