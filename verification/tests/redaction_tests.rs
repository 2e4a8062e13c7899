use rabbitagent::redaction::{RedactedLogger, RedactionError};

#[test]
fn redacted_entry_verifies() {
    let logger = RedactedLogger::new();
    let e = logger.create_redacted_entry(123_456, [7u8; 32]);
    assert_eq!(logger.verify_redacted_entry(&e.commitment, &e.proof), Ok(()));
}

#[test]
fn extreme_values_verify() {
    let logger = RedactedLogger::new();
    for v in [0u64, 1, u64::MAX] {
        let e = logger.create_redacted_entry(v, [1u8; 32]);
        assert_eq!(logger.verify_redacted_entry(&e.commitment, &e.proof), Ok(()));
    }
}

#[test]
fn commitment_depends_only_on_value_and_mask() {
    let logger = RedactedLogger::new();
    let a = logger.create_redacted_entry(5, [2u8; 32]);
    let b = logger.create_redacted_entry(5, [2u8; 32]);
    let c = logger.create_redacted_entry(6, [2u8; 32]);
    let d = logger.create_redacted_entry(5, [3u8; 32]);
    assert_eq!(a.commitment, b.commitment);
    assert_ne!(a.commitment, c.commitment);
    assert_ne!(a.commitment, d.commitment);
}

#[test]
fn proof_for_another_commitment_is_refused() {
    let logger = RedactedLogger::new();
    let a = logger.create_redacted_entry(5, [2u8; 32]);
    let c = logger.create_redacted_entry(6, [2u8; 32]);
    assert_eq!(logger.verify_redacted_entry(&c.commitment, &a.proof), Err(RedactionError::InvalidProof));
}

#[test]
fn garbage_proof_is_refused() {
    let logger = RedactedLogger::new();
    let a = logger.create_redacted_entry(5, [2u8; 32]);
    assert_eq!(logger.verify_redacted_entry(&a.commitment, &[1, 2, 3]), Err(RedactionError::InvalidProof));
}
