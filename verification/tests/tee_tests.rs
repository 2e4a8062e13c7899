use hmac::{Hmac, Mac};
use openssl::asn1::Asn1Time;
use openssl::hash::MessageDigest;
use openssl::pkey::PKey;
use openssl::rsa::Rsa;
use openssl::x509::{X509Builder, X509NameBuilder};
use rabbitagent::tee::{
    check_ecall_status, EdgeAttestation, InferenceRequest, QuoteOutcome, RemoteAttestationVerifier, SecureBuffer,
    ServiceStatus, SessionCipher, TeeError, TeeServiceImpl, SGX_SUCCESS,
};

fn rsa_public_pem() -> Vec<u8> {
    Rsa::generate(2048).unwrap().public_key_to_pem().unwrap()
}

fn self_signed_cert_pem() -> Vec<u8> {
    let pkey = PKey::from_rsa(Rsa::generate(2048).unwrap()).unwrap();
    let mut name = X509NameBuilder::new().unwrap();
    name.append_entry_by_text("CN", "attestation root").unwrap();
    let name = name.build();
    let mut b = X509Builder::new().unwrap();
    b.set_version(2).unwrap();
    b.set_subject_name(&name).unwrap();
    b.set_issuer_name(&name).unwrap();
    b.set_pubkey(&pkey).unwrap();
    b.set_not_before(&Asn1Time::days_from_now(0).unwrap()).unwrap();
    b.set_not_after(&Asn1Time::days_from_now(1).unwrap()).unwrap();
    b.sign(&pkey, MessageDigest::sha256()).unwrap();
    b.build().to_pem().unwrap()
}

#[test]
fn service_without_enclave_refuses_calls() {
    let s = TeeServiceImpl::new();
    assert_eq!(s.sgx_enclave_call(b"input"), Err("no SGX enclave is bound to this service".to_string()));
}

#[test]
fn secure_inference_reports_the_enclave_failure() {
    let s = TeeServiceImpl::new();
    let r = s.secure_inference(InferenceRequest { encrypted_input: vec![1, 2, 3] });
    match r {
        Err(status) => assert_eq!(status, ServiceStatus::Internal("no SGX enclave is bound to this service".to_string())),
        Ok(_) => panic!("expected an internal error"),
    }
}

#[test]
fn inference_answer_wraps_output_with_empty_proof() {
    match TeeServiceImpl::inference_answer(Ok(vec![9, 8])) {
        Ok(resp) => {
            assert_eq!(resp.encrypted_output, vec![9, 8]);
            assert!(resp.proof.is_empty());
        },
        Err(_) => panic!("expected a response"),
    }
    match TeeServiceImpl::inference_answer(Err("boom".to_string())) {
        Err(status) => assert_eq!(status, ServiceStatus::Internal("boom".to_string())),
        Ok(_) => panic!("expected an error"),
    }
}

#[test]
fn report_verdicts() {
    assert_eq!(RemoteAttestationVerifier::report_verdict(QuoteOutcome::Accepted), Ok(()));
    assert_eq!(RemoteAttestationVerifier::report_verdict(QuoteOutcome::Rejected), Err(TeeError::AttestationFailed));
    assert_eq!(RemoteAttestationVerifier::report_verdict(QuoteOutcome::Unparsable), Err(TeeError::InvalidQuote));
    assert_eq!(RemoteAttestationVerifier::report_verdict(QuoteOutcome::CheckFailed), Err(TeeError::InvalidQuote));
}

#[test]
fn verifier_keeps_its_spid() {
    let v = RemoteAttestationVerifier::new(&[1, 2, 3, 4], &self_signed_cert_pem()).unwrap();
    assert_eq!(v.spid(), &[1, 2, 3, 4]);
}

#[test]
fn verifier_rejects_a_bad_certificate() {
    let r = RemoteAttestationVerifier::new(&[1], b"not a certificate");
    assert!(matches!(r, Err(TeeError::InvalidCertificate)));
}

#[test]
fn ecall_status_must_be_success_twice() {
    assert_eq!(check_ecall_status(SGX_SUCCESS, SGX_SUCCESS), Ok(()));
    assert_eq!(check_ecall_status(1, SGX_SUCCESS), Err(TeeError::ExecutionFailed));
    assert_eq!(check_ecall_status(SGX_SUCCESS, 0x2001), Err(TeeError::ExecutionFailed));
}

#[test]
fn session_from_a_bad_key_fails() {
    assert!(matches!(SessionCipher::new_from_attestation(b"garbage"), Err(TeeError::Crypto)));
}

#[test]
fn sealed_payload_is_iv_ciphertext_tag() {
    let c = SessionCipher::new_from_attestation(&rsa_public_pem()).unwrap();
    let data = b"model input tensor".to_vec();
    let iv = [7u8; 12];
    let sealed = c.encrypt_payload_with_iv(&iv, &data).unwrap();
    assert_eq!(sealed.len(), 12 + data.len() + 16);
    assert_eq!(&sealed[..12], &iv);
    assert_ne!(&sealed[12..12 + data.len()], data.as_slice());
    let again = c.encrypt_payload_with_iv(&iv, &data).unwrap();
    assert_eq!(sealed, again);
}

#[test]
fn sealed_payloads_use_fresh_ivs() {
    let c = SessionCipher::new_from_attestation(&rsa_public_pem()).unwrap();
    let a = c.encrypt_payload(b"same").unwrap();
    let b = c.encrypt_payload(b"same").unwrap();
    assert_eq!(a.len(), 12 + 4 + 16);
    assert_ne!(a, b);
}

#[test]
fn report_data_is_hmac_of_challenge_then_zeros() {
    let d = EdgeAttestation::new([3u8; 32]);
    let rd = d.create_report_data(b"challenge");
    let mut mac = Hmac::<sha2::Sha256>::new_from_slice(&[3u8; 32]).unwrap();
    mac.update(b"challenge");
    let tag = mac.finalize().into_bytes();
    assert_eq!(&rd[..32], tag.as_slice());
    assert_eq!(&rd[32..], &[0u8; 32]);
}

#[test]
fn attestation_report_carries_device_quote_and_signature() {
    let d = EdgeAttestation::new([3u8; 32]);
    let r = d.attestation_report(vec![1, 2], vec![3, 4]);
    assert_eq!(r.device_id, [3u8; 32]);
    assert_eq!(r.hardware_report, vec![1, 2]);
    assert_eq!(r.signature, vec![3, 4]);
}

#[test]
fn zeroized_buffer_holds_only_zeros() {
    let mut b = SecureBuffer::allocate_secure(vec![1, 2, 3, 4, 5]);
    assert_eq!(b.as_bytes(), &[1, 2, 3, 4, 5]);
    b.zeroize();
    assert_eq!(b.as_bytes(), &[0, 0, 0, 0, 0]);
}

#[test]
fn sealed_payload_opens_back_to_the_data() {
    let c = SessionCipher::new_from_attestation(&rsa_public_pem()).unwrap();
    let data = b"enclave response".to_vec();
    let sealed = c.encrypt_payload(&data).unwrap();
    assert_eq!(sealed.len(), 12 + data.len() + 16);
    assert_eq!(c.decrypt_payload(&sealed), Ok(data));
}

#[test]
fn tampered_or_short_payload_does_not_open() {
    let c = SessionCipher::new_from_attestation(&rsa_public_pem()).unwrap();
    let mut sealed = c.encrypt_payload(b"abc").unwrap();
    sealed[13] ^= 1;
    assert_eq!(c.decrypt_payload(&sealed), Err(TeeError::Crypto));
    assert_eq!(c.decrypt_payload(&[0u8; 27]), Err(TeeError::Crypto));
}

#[test]
fn payload_sealed_under_known_keys_matches_openssl() {
    let key = [6u8; 32];
    let c = SessionCipher::from_keys(key, [1u8; 32]);
    let iv = [2u8; 12];
    let sealed = c.encrypt_payload_with_iv(&iv, b"tensor").unwrap();
    let mut tag = [0u8; 16];
    let ct = openssl::symm::encrypt_aead(openssl::symm::Cipher::aes_256_gcm(), &key, Some(&iv), &[], b"tensor", &mut tag)
        .unwrap();
    let mut expected = iv.to_vec();
    expected.extend_from_slice(&ct);
    expected.extend_from_slice(&tag);
    assert_eq!(sealed, expected);
}

#[test]
fn session_with_given_keys_needs_an_rsa_key() {
    assert!(SessionCipher::new_from_attestation_with_keys(&rsa_public_pem(), [1u8; 32], [2u8; 32]).is_ok());
    assert!(matches!(
        SessionCipher::new_from_attestation_with_keys(b"-----BEGIN PUBLIC KEY-----", [1u8; 32], [2u8; 32]),
        Err(TeeError::Crypto)
    ));
}
