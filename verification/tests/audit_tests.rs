use ed25519_dalek::{Signer, SigningKey};
use rabbitagent::audit_log::{AuditEntry, AuditMerkleTree, MerkleProof};
use rabbitagent::audit_sign::{AuditSigner, SignatureError};
use sha3::{Digest, Keccak256};

fn keccak(data: &[u8]) -> [u8; 32] {
    let mut h = Keccak256::new();
    h.update(data);
    h.finalize().into()
}

fn pair(l: &[u8; 32], r: &[u8; 32]) -> [u8; 32] {
    let mut buf = l.to_vec();
    buf.extend_from_slice(r);
    keccak(&buf)
}

fn sample_entry() -> AuditEntry {
    AuditEntry {
        timestamp: 0x0102030405060708,
        action_type: *b"SIGN",
        data_hash: [7u8; 32],
        parties: vec![[1u8; 32], [2u8; 32]],
        zk_proof: None,
    }
}

#[test]
fn empty_log_has_no_root_and_no_proof() {
    let t = AuditMerkleTree::new();
    assert_eq!(t.leaf_count(), 0);
    assert!(t.root().is_none());
    assert!(t.generate_inclusion_proof(0).is_none());
}

#[test]
fn root_of_three_leaves_pairs_the_odd_leaf_with_itself() {
    let mut t = AuditMerkleTree::new();
    let l0 = [0u8; 32];
    let l1 = [1u8; 32];
    let l2 = [2u8; 32];
    t.append_leaf(l0);
    t.append_leaf(l1);
    t.append_leaf(l2);
    assert_eq!(t.leaf_count(), 3);
    let expected = pair(&pair(&l0, &l1), &pair(&l2, &l2));
    assert_eq!(t.root(), Some(expected));
}

#[test]
fn root_of_one_leaf_is_the_leaf() {
    let mut t = AuditMerkleTree::new();
    t.append_leaf([9u8; 32]);
    assert_eq!(t.root(), Some([9u8; 32]));
}

#[test]
fn every_inclusion_proof_verifies() {
    let mut t = AuditMerkleTree::new();
    let leaves: Vec<[u8; 32]> = (0u8..5).map(|i| [i; 32]).collect();
    for l in &leaves {
        t.append_leaf(*l);
    }
    let root = t.root().unwrap();
    for (i, l) in leaves.iter().enumerate() {
        let p = t.generate_inclusion_proof(i as u64).unwrap();
        assert_eq!(p.index, i as u64);
        assert_eq!(p.root, root);
        assert!(p.verify_inclusion(l));
        assert!(!p.verify_inclusion(&[0xffu8; 32]));
    }
    assert!(t.generate_inclusion_proof(5).is_none());
}

#[test]
fn inclusion_proof_path_for_second_of_two_leaves() {
    let mut t = AuditMerkleTree::new();
    t.append_leaf([1u8; 32]);
    t.append_leaf([2u8; 32]);
    let p = t.generate_inclusion_proof(1).unwrap();
    assert_eq!(p.path, vec![([1u8; 32], false)]);
}

#[test]
fn proof_with_wrong_root_fails() {
    let p = MerkleProof { root: [0u8; 32], path: vec![([1u8; 32], true)], index: 0 };
    assert!(!p.verify_inclusion(&[2u8; 32]));
    let good = MerkleProof { root: pair(&[2u8; 32], &[1u8; 32]), path: vec![([1u8; 32], true)], index: 0 };
    assert!(good.verify_inclusion(&[2u8; 32]));
}

#[test]
fn serialize_entry_layout() {
    let e = sample_entry();
    let bytes = AuditMerkleTree::serialize_entry(&e);
    let mut expected = vec![8u8, 7, 6, 5, 4, 3, 2, 1];
    expected.extend_from_slice(b"SIGN");
    expected.extend_from_slice(&[7u8; 32]);
    expected.extend_from_slice(&[2u8, 0, 0, 0, 0, 0, 0, 0]);
    expected.extend_from_slice(&[1u8; 32]);
    expected.extend_from_slice(&[2u8; 32]);
    expected.push(0);
    assert_eq!(bytes, expected);
}

#[test]
fn serialize_entry_with_proof() {
    let mut e = sample_entry();
    e.parties = vec![];
    e.zk_proof = Some(vec![0xaa, 0xbb]);
    let bytes = AuditMerkleTree::serialize_entry(&e);
    let tail = &bytes[bytes.len() - 11..];
    assert_eq!(tail, &[1u8, 2, 0, 0, 0, 0, 0, 0, 0, 0xaa, 0xbb]);
}

#[test]
fn append_entry_records_keccak_of_encoding() {
    let mut t = AuditMerkleTree::new();
    let e = sample_entry();
    let expected = keccak(&AuditMerkleTree::serialize_entry(&e));
    let h = t.append_entry(e);
    assert_eq!(h, expected);
    assert_eq!(t.root(), Some(expected));
}

#[test]
fn signed_entry_verifies() {
    let signer = AuditSigner { secret_key: [5u8; 32] };
    let mut e = sample_entry();
    signer.sign_entry(&mut e);
    assert_eq!(e.zk_proof.as_ref().unwrap().len(), 64);
    assert_eq!(signer.verify_entry(&e), Ok(()));
}

#[test]
fn signature_matches_ed25519_of_context_hash_and_parties() {
    let signer = AuditSigner { secret_key: [5u8; 32] };
    let mut e = sample_entry();
    signer.sign_entry(&mut e);
    let mut msg = b"RabbitAgentAudit".to_vec();
    msg.extend_from_slice(&[7u8; 32]);
    msg.extend_from_slice(&[1u8; 32]);
    msg.extend_from_slice(&[2u8; 32]);
    let expected = SigningKey::from_bytes(&[5u8; 32]).sign(&msg).to_bytes().to_vec();
    assert_eq!(e.zk_proof, Some(expected));
}

#[test]
fn tampered_entry_fails_verification() {
    let signer = AuditSigner { secret_key: [5u8; 32] };
    let mut e = sample_entry();
    signer.sign_entry(&mut e);
    e.data_hash[0] ^= 1;
    assert_eq!(signer.verify_entry(&e), Err(SignatureError::VerificationFailed));
}

#[test]
fn entry_signed_by_another_key_fails_verification() {
    let signer = AuditSigner { secret_key: [5u8; 32] };
    let other = AuditSigner { secret_key: [6u8; 32] };
    let mut e = sample_entry();
    other.sign_entry(&mut e);
    assert_eq!(signer.verify_entry(&e), Err(SignatureError::VerificationFailed));
}

#[test]
fn short_signature_is_malformed() {
    let signer = AuditSigner { secret_key: [5u8; 32] };
    let mut e = sample_entry();
    e.zk_proof = Some(vec![1, 2, 3]);
    assert_eq!(signer.verify_entry(&e), Err(SignatureError::MalformedSignature));
}
