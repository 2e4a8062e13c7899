use ed25519_dalek::{Signer, SigningKey};
use rabbitagent::p2p::FederatedMessage;

#[test]
fn message_signed_over_its_nonce_verifies() {
    let sk = SigningKey::from_bytes(&[11u8; 32]);
    let nonce = [42u8; 32];
    let msg = FederatedMessage {
        model_parameters: vec![1, 2, 3],
        nonce,
        signature: sk.sign(&nonce).to_bytes().to_vec(),
    };
    assert!(msg.verify(sk.verifying_key().as_bytes()));
}

#[test]
fn message_with_other_nonce_does_not_verify() {
    let sk = SigningKey::from_bytes(&[11u8; 32]);
    let msg = FederatedMessage {
        model_parameters: vec![],
        nonce: [1u8; 32],
        signature: sk.sign(&[2u8; 32]).to_bytes().to_vec(),
    };
    assert!(!msg.verify(sk.verifying_key().as_bytes()));
}

#[test]
fn message_under_other_key_does_not_verify() {
    let sk = SigningKey::from_bytes(&[11u8; 32]);
    let other = SigningKey::from_bytes(&[12u8; 32]);
    let msg = FederatedMessage {
        model_parameters: vec![],
        nonce: [1u8; 32],
        signature: sk.sign(&[1u8; 32]).to_bytes().to_vec(),
    };
    assert!(!msg.verify(other.verifying_key().as_bytes()));
}
