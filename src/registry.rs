//! Registry entries: the content hash of a proof artifact, the decoded score,
//! and where an entry is stored.
use sha2::Digest;
use vstd::prelude::*;
use crate::decoder::{ExtractedScore, ScoreSource};
use crate::digits::{append_hex, hex_char, hex_digits_of};
use crate::subject::{lemma_prefix_insensitive, normalize_subject, normalized};

verus! {

/// The SHA-256 digest of a byte string.
pub uninterp spec fn sha256_of(data: Seq<u8>) -> Seq<u8>;

/// Relies on `sha2::Sha256::digest`: the 32-byte SHA-256 digest of `data`.
#[verifier::external_body]
fn sha256(data: &[u8]) -> (r: Vec<u8>)
    ensures
        r@ == sha256_of(data@),
        r@.len() == 32,
{
    sha2::Sha256::digest(data).to_vec()
}

/// Two lower-case hexadecimal digits per byte, the high digit first.
pub open spec fn hex_encoding(b: Seq<u8>) -> Seq<char> {
    Seq::new(
        2 * b.len(),
        |i: int|
            if i % 2 == 0 {
                hex_char((b[i / 2] / 16) as nat)
            } else {
                hex_char((b[i / 2] % 16) as nat)
            },
    )
}

/// Relies on `hex::encode`: each byte becomes two lower-case hexadecimal
/// digits, the high digit first.
#[verifier::external_body]
fn hex_encode(data: &[u8]) -> (r: String)
    ensures
        r@ == hex_encoding(data@),
{
    hex::encode(data)
}

/// The content hash of a proof artifact: its SHA-256 digest in hexadecimal.
pub open spec fn content_hash(artifact: Seq<u8>) -> Seq<char> {
    hex_encoding(sha256_of(artifact))
}

/// Computes the content hash of a proof artifact.
pub fn proof_hash(artifact: &[u8]) -> (r: String)
    ensures
        r@ == content_hash(artifact@),
        r@.len() == 64,
{
    let digest = sha256(artifact);
    hex_encode(digest.as_slice())
}

/// Whether a recorded hash is the content hash of the given artifact bytes.
pub fn hash_matches(recorded: &str, artifact: &[u8]) -> (r: bool)
    ensures
        r == (recorded@ == content_hash(artifact@)),
{
    let h = proof_hash(artifact);
    let n = recorded.unicode_len();
    if n != 64 {
        return false;
    }
    let mut i: usize = 0;
    while i < 64
        invariant
            n == 64,
            recorded@.len() == 64,
            h@.len() == 64,
            h@ == content_hash(artifact@),
            i <= 64,
            forall|t: int| 0 <= t < i ==> recorded@[t] == h@[t],
        decreases 64 - i,
    {
        if recorded.get_char(i) != h.as_str().get_char(i) {
            return false;
        }
        i = i + 1;
    }
    assert(recorded@ =~= h@);
    true
}

/// The persisted record of one subject's proof.
pub struct RegistryEntry {
    pub proof_hash: String,
    pub credit_score: u64,
    pub timestamp: u64,
    pub model_version: String,
    pub subject: String,
    /// Set when the score is the decoder's fallback rather than a decoded value.
    pub degraded: bool,
}

/// Builds the registry entry of one subject's proof.
pub fn build_registry_entry(
    subject: &str,
    artifact: &[u8],
    score: ExtractedScore,
    model_version: &str,
    timestamp: u64,
) -> (r: RegistryEntry)
    ensures
        r.proof_hash@ == content_hash(artifact@),
        r.credit_score == score.value,
        r.timestamp == timestamp,
        r.model_version@ == model_version@,
        r.subject@ == subject@,
        r.degraded == (score.source == ScoreSource::Fallback),
{
    RegistryEntry {
        proof_hash: proof_hash(artifact),
        credit_score: score.value,
        timestamp,
        model_version: model_version.to_owned(),
        subject: subject.to_owned(),
        degraded: score.is_degraded(),
    }
}

/// Where a subject's registry entry is stored: one file per canonical subject.
pub open spec fn registry_path(dir: Seq<char>, subject: Seq<char>) -> Seq<char> {
    dir + "/"@ + normalized(subject) + ".json"@
}

/// Computes where a subject's registry entry is stored.
pub fn registry_entry_path(registry_dir: &str, subject: &str) -> (r: String)
    ensures
        r@ == registry_path(registry_dir@, subject@),
{
    let mut path = registry_dir.to_owned();
    path.append("/");
    let key = normalize_subject(subject);
    path.append(key.as_str());
    path.append(".json");
    path
}

/// The score as the lookup document shows it: `0x` and lower-case hexadecimal digits.
pub fn score_hex(score: u64) -> (r: String)
    ensures
        r@ == seq!['0', 'x'] + hex_digits_of(score as nat),
{
    let mut s = "0x".to_owned();
    proof {
        reveal_strlit("0x");
    }
    append_hex(&mut s, score);
    s
}

/// The content hash depends on the artifact's bytes alone, so it can be
/// recomputed from the stored artifact and checked against an entry.
pub proof fn lemma_hash_reproducible(
    stored: Seq<u8>,
    artifact: Seq<u8>,
    entry: RegistryEntry,
)
    requires
        stored == artifact,
        entry.proof_hash@ == content_hash(artifact),
    ensures
        entry.proof_hash@ == content_hash(stored),
{
}

/// A subject written with or without its `0x` prefix has one registry entry.
pub proof fn lemma_registry_path_prefix_insensitive(dir: Seq<char>, subject: Seq<char>)
    ensures
        registry_path(dir, seq!['0', 'x'] + subject) == registry_path(dir, subject),
{
    lemma_prefix_insensitive(subject);
}

/// Subjects with different canonical forms never share a registry entry.
pub proof fn lemma_registry_path_injective(dir: Seq<char>, a: Seq<char>, b: Seq<char>)
    requires
        registry_path(dir, a) == registry_path(dir, b),
    ensures
        normalized(a) == normalized(b),
{
    let pa = registry_path(dir, a);
    let pb = registry_path(dir, b);
    let start = dir.len() + "/"@.len();
    assert(pa.len() == pb.len());
    assert(normalized(a).len() == normalized(b).len());
    assert(pa.subrange(start as int, (start + normalized(a).len()) as int) =~= normalized(a));
    assert(pb.subrange(start as int, (start + normalized(b).len()) as int) =~= normalized(b));
}

/// The implied factor between the proof's public input and the score the data
/// generator scaled, as an exact ratio.
#[derive(Clone, Copy, Debug, PartialEq, Eq, Structural)]
pub struct ScaleRatio {
    pub numerator: u64,
    pub denominator: u64,
}

/// An advisory cross-check between the decoded score and the score the data
/// generator recorded, kept to detect encoding drift between versions.
pub struct ScalingDebugRecord {
    pub subject: String,
    pub scaled_score: Option<u64>,
    pub proof_public_input: u64,
    /// Absent where the recorded score is missing or zero.
    pub scaling_factor: Option<ScaleRatio>,
    /// Set where the decoded score differs from the recorded one.
    pub drift: bool,
}

pub open spec fn scale_ratio(public_input: u64, scaled_score: Option<u64>) -> Option<ScaleRatio> {
    match scaled_score {
        Some(d) => if d > 0 {
            Some(ScaleRatio { numerator: public_input, denominator: d })
        } else {
            None
        },
        None => None,
    }
}

/// Builds the cross-check record of one subject.
pub fn scaling_record(subject: &str, public_input: u64, scaled_score: Option<u64>) -> (r:
    ScalingDebugRecord)
    ensures
        r.subject@ == subject@,
        r.scaled_score == scaled_score,
        r.proof_public_input == public_input,
        r.scaling_factor == scale_ratio(public_input, scaled_score),
        r.drift == (scaled_score != Some(public_input)),
{
    let scaling_factor = match scaled_score {
        Some(d) => if d > 0 {
            Some(ScaleRatio { numerator: public_input, denominator: d })
        } else {
            None
        },
        None => None,
    };
    let drift = match scaled_score {
        Some(d) => d != public_input,
        None => true,
    };
    ScalingDebugRecord {
        subject: subject.to_owned(),
        scaled_score,
        proof_public_input: public_input,
        scaling_factor,
        drift,
    }
}

} // verus!
