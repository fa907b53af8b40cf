use proof_pipeline::decoder::{
    decode_primary_instance, decode_raw_output, extract_score, ExtractedScore,
    ProofDocument, RescaledOutput, ScoreSource, WitnessDocument, FALLBACK_SCORE,
};
use proof_pipeline::rescaled::decode_rescaled;

fn proof_doc(s: Option<&str>) -> ProofDocument {
    ProofDocument { first_instance: s.map(|x| x.to_string()) }
}

fn witness_doc(raw: Option<&str>, rescaled: Option<RescaledOutput>) -> WitnessDocument {
    WitnessDocument { first_output: raw.map(|x| x.to_string()), rescaled_output: rescaled }
}

#[test]
fn primary_instance_little_endian_score_400() {
    let hex = format!("0x9001{}", "00".repeat(29));
    assert_eq!(hex.len(), 64);
    assert_eq!(decode_primary_instance(&hex), Some(400));
}

#[test]
fn primary_instance_big_endian_spelling_does_not_fit() {
    // Read as little-endian bytes, these digits put 0x90 in the top byte.
    let hex = "0x00000000000000000000000000000000000000000000000000000000000190";
    assert_eq!(decode_primary_instance(hex), None);
}

#[test]
fn primary_instance_small_values() {
    assert_eq!(decode_primary_instance("0x0100"), Some(1));
    assert_eq!(decode_primary_instance("0001"), Some(256));
    assert_eq!(decode_primary_instance("ff"), Some(255));
    assert_eq!(decode_primary_instance("0xFF00"), Some(255));
}

#[test]
fn primary_instance_malformed_yields_nothing() {
    assert_eq!(decode_primary_instance(""), None);
    assert_eq!(decode_primary_instance("0x"), None);
    assert_eq!(decode_primary_instance("0x123"), None);
    assert_eq!(decode_primary_instance("0xzz00"), None);
}

#[test]
fn primary_instance_largest_and_overflow() {
    assert_eq!(decode_primary_instance("ffffffffffffffff"), Some(u64::MAX));
    assert_eq!(decode_primary_instance("ffffffffffffffff00"), Some(u64::MAX));
    assert_eq!(decode_primary_instance("000000000000000001"), None);
}

#[test]
fn raw_output_first_four_digits() {
    assert_eq!(decode_raw_output("0x0190abcd"), Some(400));
    assert_eq!(decode_raw_output("ffff"), Some(65535));
    assert_eq!(decode_raw_output("0x12"), None);
    assert_eq!(decode_raw_output("0x12g4"), None);
}

#[test]
fn rescaled_decimal_rounds_to_thousandths() {
    assert_eq!(decode_rescaled("0.4"), Some(400));
    assert_eq!(decode_rescaled("12"), Some(12000));
    assert_eq!(decode_rescaled("1.23456"), Some(1235));
    assert_eq!(decode_rescaled("0.0005"), Some(1));
    assert_eq!(decode_rescaled("0.0004999"), Some(0));
    assert_eq!(decode_rescaled("0.999"), Some(999));
}

#[test]
fn rescaled_float_forms() {
    assert_eq!(decode_rescaled(".5"), Some(500));
    assert_eq!(decode_rescaled("5."), Some(5000));
    assert_eq!(decode_rescaled("+0.5"), Some(500));
    assert_eq!(decode_rescaled("5e-1"), Some(500));
    assert_eq!(decode_rescaled("4E-1"), Some(400));
    assert_eq!(decode_rescaled("1.5e+2"), Some(150000));
    assert_eq!(decode_rescaled("1e-7"), Some(0));
    assert_eq!(decode_rescaled("5e-4"), Some(1));
    assert_eq!(decode_rescaled("4.9e-4"), Some(0));
    assert_eq!(decode_rescaled("1e16"), Some(10_000_000_000_000_000_000));
    assert_eq!(decode_rescaled("1e17"), None);
    assert_eq!(decode_rescaled("0e999999999999999999999999999"), Some(0));
    assert_eq!(decode_rescaled("1e999999999999999999999999999"), None);
    assert_eq!(decode_rescaled("1e-999999999999999999999999999"), Some(0));
    assert_eq!(decode_rescaled("0.00000000000000000000000000000000000001e38"), Some(1000));
    assert_eq!(decode_rescaled("18446744073709551615e-3"), Some(u64::MAX));
    assert_eq!(decode_rescaled("18446744073709551615.5e-3"), None);
}

#[test]
fn rescaled_decimal_rejects_malformed() {
    assert_eq!(decode_rescaled(""), None);
    assert_eq!(decode_rescaled("-0.4"), None);
    assert_eq!(decode_rescaled("abc"), None);
    assert_eq!(decode_rescaled("."), None);
    assert_eq!(decode_rescaled("e5"), None);
    assert_eq!(decode_rescaled("1e"), None);
    assert_eq!(decode_rescaled("1e+"), None);
    assert_eq!(decode_rescaled("1e5x"), None);
    assert_eq!(decode_rescaled("++1"), None);
    assert_eq!(decode_rescaled("inf"), None);
    assert_eq!(decode_rescaled("1.2.3"), None);
    assert_eq!(decode_rescaled("18446744073709552"), None);
    assert_eq!(decode_rescaled("18446744073709551.615"), Some(u64::MAX));
}

#[test]
fn valid_primary_instance_takes_priority() {
    let proof = proof_doc(Some("0x0100"));
    let witness = witness_doc(Some("0x0190"), Some(RescaledOutput::Number("0.4".to_string())));
    assert_eq!(
        extract_score(&proof, &witness),
        ExtractedScore { value: 1, source: ScoreSource::PrimaryInstance }
    );
}

#[test]
fn scenario_a_score_400() {
    let hex = format!("0x9001{}", "00".repeat(29));
    let proof = proof_doc(Some(&hex));
    let witness = witness_doc(None, None);
    let r = extract_score(&proof, &witness);
    assert_eq!(r.value, 400);
    assert_eq!(r.source, ScoreSource::PrimaryInstance);
    assert!(!r.is_degraded());
}

#[test]
fn malformed_primary_falls_back_to_rescaled_number() {
    let proof = proof_doc(Some("0xnothex"));
    let witness = witness_doc(None, Some(RescaledOutput::Number("0.4123".to_string())));
    assert_eq!(
        extract_score(&proof, &witness),
        ExtractedScore { value: 412, source: ScoreSource::RescaledNumber }
    );
    let empty = proof_doc(None);
    assert_eq!(extract_score(&empty, &witness).value, 412);
    let tiny = witness_doc(None, Some(RescaledOutput::Number("4.5e-1".to_string())));
    assert_eq!(
        extract_score(&empty, &tiny),
        ExtractedScore { value: 450, source: ScoreSource::RescaledNumber }
    );
}

#[test]
fn raw_output_used_when_primary_fails() {
    let proof = proof_doc(Some(""));
    let witness = witness_doc(Some("0x02bc0000"), Some(RescaledOutput::Text("0.4".to_string())));
    assert_eq!(
        extract_score(&proof, &witness),
        ExtractedScore { value: 700, source: ScoreSource::RawOutputHex }
    );
}

#[test]
fn rescaled_text_path() {
    let proof = proof_doc(None);
    let witness = witness_doc(Some("0x1"), Some(RescaledOutput::Text("0.8".to_string())));
    assert_eq!(
        extract_score(&proof, &witness),
        ExtractedScore { value: 800, source: ScoreSource::RescaledText }
    );
}

#[test]
fn fallback_is_flagged() {
    let proof = proof_doc(None);
    let witness = witness_doc(None, Some(RescaledOutput::Text("n/a".to_string())));
    let r = extract_score(&proof, &witness);
    assert_eq!(r, ExtractedScore { value: FALLBACK_SCORE, source: ScoreSource::Fallback });
    assert!(r.is_degraded());
}
