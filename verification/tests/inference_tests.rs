use aes_gcm_siv::aead::{Aead, KeyInit};
use aes_gcm_siv::{Aes256GcmSiv, Nonce};
use rabbitagent::inference::{open_encrypted_model, quantized_path, InfererError};

fn seal(key: &[u8; 32], nonce: &[u8; 12], weights: &[u8]) -> Vec<u8> {
    let mut file = nonce.to_vec();
    file.extend(Aes256GcmSiv::new(key.into()).encrypt(Nonce::from_slice(nonce), weights).unwrap());
    file
}

#[test]
fn model_file_decrypts_to_its_weights() {
    let key = [4u8; 32];
    let file = seal(&key, &[9u8; 12], b"weights");
    let m = open_encrypted_model("models/net.bin", &file, &key).unwrap();
    assert_eq!(m.weights, b"weights".to_vec());
    assert!(!m.quantized);
}

#[test]
fn quant_suffix_marks_a_quantized_model() {
    let key = [4u8; 32];
    let file = seal(&key, &[9u8; 12], b"w");
    let m = open_encrypted_model("models/net.quant", &file, &key).unwrap();
    assert!(m.quantized);
}

#[test]
fn quantized_paths() {
    assert!(quantized_path("a.quant"));
    assert!(quantized_path(".quant"));
    assert!(!quantized_path("quant"));
    assert!(!quantized_path("a.quant.bin"));
    assert!(!quantized_path("a.Quant"));
}

#[test]
fn short_file_is_truncated() {
    assert!(matches!(open_encrypted_model("m", &[0u8; 11], &[0u8; 32]), Err(InfererError::Truncated)));
}

#[test]
fn wrong_key_fails_to_decrypt() {
    let file = seal(&[4u8; 32], &[9u8; 12], b"weights");
    assert!(matches!(open_encrypted_model("m", &file, &[5u8; 32]), Err(InfererError::Decryption)));
}
