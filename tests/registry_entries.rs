use proof_pipeline::decoder::{ExtractedScore, ScoreSource};
use proof_pipeline::registry::{
    build_registry_entry, hash_matches, proof_hash, registry_entry_path, scaling_record,
    score_hex, ScaleRatio,
};
use proof_pipeline::subject::{address_to_filename, normalize_subject};

const ABC_SHA256: &str = "ba7816bf8f01cfea414140de5dae2223b00361a396177a9cb410ff61f20015ad";

#[test]
fn proof_hash_is_sha256_hex() {
    assert_eq!(proof_hash(b"abc"), ABC_SHA256);
    assert_eq!(
        proof_hash(b""),
        "e3b0c44298fc1c149afbf4c8996fb92427ae41e4649b934ca495991b7852b855"
    );
}

#[test]
fn proof_hash_reproducible_from_stored_bytes() {
    let artifact = b"{\"instances\":[[\"0x01\"]]}".to_vec();
    let stored = artifact.clone();
    let entry = build_registry_entry(
        "0xAAAA",
        &artifact,
        ExtractedScore { value: 1, source: ScoreSource::PrimaryInstance },
        "1.0.0",
        7,
    );
    assert_eq!(entry.proof_hash, proof_hash(&stored));
    assert!(hash_matches(&entry.proof_hash, &stored));
    assert!(!hash_matches(&entry.proof_hash, b"other"));
    assert!(!hash_matches("abc", &stored));
}

#[test]
fn registry_entry_fields() {
    let entry = build_registry_entry(
        "0x2222",
        b"abc",
        ExtractedScore { value: 400, source: ScoreSource::PrimaryInstance },
        "1.0.0",
        1700000000,
    );
    assert_eq!(entry.proof_hash, ABC_SHA256);
    assert_eq!(entry.credit_score, 400);
    assert_eq!(entry.timestamp, 1700000000);
    assert_eq!(entry.model_version, "1.0.0");
    assert_eq!(entry.subject, "0x2222");
    assert!(!entry.degraded);
    let fallback = build_registry_entry(
        "0x2222",
        b"abc",
        ExtractedScore { value: 0, source: ScoreSource::Fallback },
        "1.0.0",
        1,
    );
    assert!(fallback.degraded);
}

#[test]
fn scenario_d_prefix_does_not_change_registry_path() {
    let a = "0x2222222222222222222222222222222222222222";
    let b = "2222222222222222222222222222222222222222";
    assert_eq!(registry_entry_path("proof_registry", a), registry_entry_path("proof_registry", b));
    assert_eq!(
        registry_entry_path("proof_registry", a),
        "proof_registry/2222222222222222222222222222222222222222.json"
    );
}

#[test]
fn registry_path_ignores_case() {
    assert_eq!(
        registry_entry_path("reg", "0x276ef71c8F12508d187E7D8Fcc2FE6A38a5884B1"),
        "reg/276ef71c8f12508d187e7d8fcc2fe6a38a5884b1.json"
    );
    assert_eq!(registry_entry_path("reg", "0XABCD"), registry_entry_path("reg", "abcd"));
}

#[test]
fn address_to_filename_strips_prefix() {
    assert_eq!(address_to_filename("0x2222"), "2222");
    assert_eq!(address_to_filename("2222"), "2222");
    assert_eq!(address_to_filename("0x0x12"), "12");
    assert_eq!(address_to_filename("0xAbC"), "abc");
    assert_eq!(address_to_filename("0X0xAB"), "ab");
    assert_eq!(address_to_filename(&"A".repeat(40)), address_to_filename(&"a".repeat(40)));
    assert_eq!(address_to_filename(""), "");
    assert_eq!(normalize_subject("0xAbC"), "abc");
}

#[test]
fn score_hex_format() {
    assert_eq!(score_hex(400), "0x190");
    assert_eq!(score_hex(0), "0x0");
    assert_eq!(score_hex(255), "0xff");
    assert_eq!(score_hex(u64::MAX), "0xffffffffffffffff");
}

#[test]
fn scaling_record_ratio_and_zero_guard() {
    let r = scaling_record("0x2222", 400, Some(400));
    assert_eq!(r.subject, "0x2222");
    assert_eq!(r.scaling_factor, Some(ScaleRatio { numerator: 400, denominator: 400 }));
    assert!(!r.drift);
    let z = scaling_record("0x2222", 400, Some(0));
    assert_eq!(z.scaling_factor, None);
    assert!(z.drift);
    let m = scaling_record("0x2222", 400, None);
    assert_eq!(m.scaling_factor, None);
    assert!(m.drift);
    let d = scaling_record("0x2222", 4000, Some(400));
    assert_eq!(d.scaling_factor, Some(ScaleRatio { numerator: 4000, denominator: 400 }));
    assert!(d.drift);
}
