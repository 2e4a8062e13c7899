use ed25519_dalek::{Signer, SigningKey};
use rabbitagent::latency::{create_rolling_window_dataset, LatencyReservoir, LatencyStats, SignedLatencyReport};

fn stats() -> LatencyStats {
    LatencyStats { mean: 10, std_dev: 2, min: 7, max: 15 }
}

#[test]
fn signed_report_verifies() {
    let r = SignedLatencyReport::sign_metrics(&[8u8; 32], &stats());
    assert_eq!(r.metrics, stats());
    assert_eq!(r.public_key.len(), 32);
    assert_eq!(r.signature.len(), 64);
    assert!(r.verify());
    assert_eq!(r.try_verify(), Some(true));
}

#[test]
fn report_signature_is_ed25519_over_the_little_endian_fields() {
    let r = SignedLatencyReport::sign_metrics(&[8u8; 32], &stats());
    let sk = SigningKey::from_bytes(&[8u8; 32]);
    let mut msg = Vec::new();
    for v in [10u64, 2, 7, 15] {
        msg.extend_from_slice(&v.to_le_bytes());
    }
    assert_eq!(r.signature, sk.sign(&msg).to_bytes().to_vec());
    assert_eq!(r.public_key, sk.verifying_key().to_bytes().to_vec());
}

#[test]
fn tampered_report_does_not_verify() {
    let mut r = SignedLatencyReport::sign_metrics(&[8u8; 32], &stats());
    r.metrics.max = 16;
    assert!(!r.verify());
    assert_eq!(r.try_verify(), Some(false));
}

#[test]
fn malformed_report_is_not_checked() {
    let mut r = SignedLatencyReport::sign_metrics(&[8u8; 32], &stats());
    r.signature.pop();
    assert_eq!(r.try_verify(), None);
    let mut k = SignedLatencyReport::sign_metrics(&[8u8; 32], &stats());
    k.public_key = vec![1, 2, 3];
    assert_eq!(k.try_verify(), None);
}

#[test]
fn reservoir_overwrites_oldest_slot_and_wraps() {
    let mut r = LatencyReservoir::new(3);
    assert_eq!(r.positive_samples(), Vec::<u128>::new());
    r.record(5);
    r.record(6);
    assert_eq!(r.positive_samples(), vec![5, 6]);
    r.record(7);
    r.record(8);
    assert_eq!(r.positive_samples(), vec![8, 6, 7]);
}

#[test]
fn reservoir_skips_zero_samples() {
    let mut r = LatencyReservoir::new(4);
    r.record(0);
    r.record(9);
    assert_eq!(r.positive_samples(), vec![9]);
}

#[test]
fn rolling_windows_pair_each_run_with_the_next_value() {
    let (samples, targets) = create_rolling_window_dataset(&[1, 2, 3, 4, 5], 2);
    assert_eq!(samples, vec![vec![1, 2], vec![2, 3], vec![3, 4]]);
    assert_eq!(targets, vec![3, 4, 5]);
}

#[test]
fn rolling_windows_of_short_series_are_empty() {
    let (samples, targets) = create_rolling_window_dataset(&[1, 2], 2);
    assert!(samples.is_empty());
    assert!(targets.is_empty());
}
