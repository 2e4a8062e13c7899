use aes_gcm::aead::{Aead, KeyInit};
use aes_gcm::Aes256Gcm;
use rabbitagent::audit_log::MerkleProof;
use rabbitagent::keyvault::{
    master_key_options_exec, AuditEvent, Auditor, HardwareBackedKeystore, KeyAttribute, KeyGenOptions,
    KeyPolicy, KeyType, PostAction, VaultError,
};
use sha3::{Digest, Keccak256};

fn hkdf32(ikm: &[u8], info: &[u8]) -> [u8; 32] {
    let mut okm = [0u8; 32];
    hkdf::Hkdf::<sha2::Sha512>::new(None, ikm).expand(info, &mut okm).unwrap();
    okm
}

#[test]
fn master_key_is_persistent_and_not_exportable() {
    let o = master_key_options_exec();
    assert_eq!(o, KeyGenOptions { key_type: KeyType::AES256, persistent: true, exportable: false });
}

#[test]
fn key_template_lists_the_generation_attributes() {
    let o = KeyGenOptions { key_type: KeyType::AES256, persistent: false, exportable: true };
    assert_eq!(
        o.key_template(),
        vec![
            KeyAttribute::SecretKeyClass,
            KeyAttribute::KeyType(KeyType::AES256),
            KeyAttribute::Token(false),
            KeyAttribute::Exportable(true),
            KeyAttribute::Sensitive(true),
            KeyAttribute::Extractable(false),
        ]
    );
}

#[test]
fn derived_key_is_hkdf_sha512_under_the_path() {
    let ks = HardwareBackedKeystore::initialize([1u8; 32]);
    let k = ks.derive_key("payments");
    assert_eq!(k, hkdf32(&[1u8; 32], b"m/44'/626'/0'/0/payments"));
    assert_ne!(ks.derive_key("payments"), ks.derive_key("other"));
}

#[test]
fn stored_secret_decrypts_under_the_derived_key() {
    let ks = HardwareBackedKeystore::initialize([2u8; 32]);
    let nonce = [5u8; 12];
    let sealed = ks.secure_store_with_nonce("db-password", &nonce, b"hunter2").unwrap();
    assert_eq!(sealed.key_id, "db-password");
    assert_eq!(sealed.nonce, nonce);
    assert_eq!(sealed.policy, KeyPolicy { decryption_approvers: 3, validity_window: 3600 });
    assert_eq!(sealed.ciphertext.len(), 7 + 16);
    let key = hkdf32(&[2u8; 32], b"m/44'/626'/0'/0/db-password");
    let cipher = Aes256Gcm::new((&key).into());
    let opened = cipher.decrypt((&nonce).into(), sealed.ciphertext.as_slice()).unwrap();
    assert_eq!(opened, b"hunter2".to_vec());
}

#[test]
fn stored_secret_with_random_nonce_decrypts() {
    let ks = HardwareBackedKeystore::initialize([3u8; 32]);
    let sealed = ks.secure_store("api", b"token").unwrap();
    let key = hkdf32(&[3u8; 32], b"m/44'/626'/0'/0/api");
    let cipher = Aes256Gcm::new((&key).into());
    let opened = cipher.decrypt((&sealed.nonce).into(), sealed.ciphertext.as_slice()).unwrap();
    assert_eq!(opened, b"token".to_vec());
}

#[test]
fn audit_proofs_lead_to_the_root() {
    let mut a = Auditor::new("alice".to_string());
    let p0 = a.generate_merkle_proof([1u8; 32]).unwrap();
    assert_eq!(p0.index, 0);
    assert!(p0.verify_inclusion(&[1u8; 32]));
    let p1 = a.generate_merkle_proof([2u8; 32]).unwrap();
    assert_eq!(p1.index, 1);
    assert!(p1.verify_inclusion(&[2u8; 32]));
    assert!(!p1.verify_inclusion(&[1u8; 32]));
}

#[test]
fn logged_operation_carries_its_inclusion_proof() {
    let mut a = Auditor::new("bob".to_string());
    let e = a.log_operation(AuditEvent::KeyRotated, 1000, [4u8; 32]).unwrap();
    assert_eq!(e.timestamp, 1000);
    assert_eq!(e.event, AuditEvent::KeyRotated);
    assert_eq!(e.principal, "bob");
    assert_eq!(e.device_fingerprint, [4u8; 32]);
    let mut bytes = 1000u64.to_le_bytes().to_vec();
    bytes.push(3);
    bytes.extend_from_slice(&3u64.to_le_bytes());
    bytes.extend_from_slice(b"bob");
    bytes.extend_from_slice(&[4u8; 32]);
    let mut h = Keccak256::new();
    h.update(&bytes);
    let leaf: [u8; 32] = h.finalize().into();
    let proof: &MerkleProof = &e.blockchain_proof;
    assert_eq!(proof.index, 0);
    assert_eq!(proof.root, leaf);
    assert!(proof.verify_inclusion(&leaf));
    let second = a.log_operation(AuditEvent::SecretStored, 1001, [4u8; 32]).unwrap();
    assert_eq!(second.blockchain_proof.index, 1);
}

#[test]
fn entry_is_posted_only_after_a_successful_append() {
    let mut a = Auditor::new("carol".to_string());
    let e = a.log_operation(AuditEvent::KeyGenerated, 5, [1u8; 32]).unwrap();
    match Auditor::post_decision(e, Ok(())) {
        PostAction::PostToChain(posted) => assert_eq!(posted.timestamp, 5),
        PostAction::Abort(_) => panic!("expected a post"),
    }
    let e2 = a.log_operation(AuditEvent::KeyGenerated, 6, [1u8; 32]).unwrap();
    match Auditor::post_decision(e2, Err(VaultError::AppendFailed)) {
        PostAction::Abort(err) => assert_eq!(err, VaultError::AppendFailed),
        PostAction::PostToChain(_) => panic!("nothing may be posted"),
    }
}
