//! The cryptographic primitives the library calls from outside crates.
//!
//! Each function here is trusted: Verus believes its contract and does not
//! read its body. Where a primitive's output takes pages to define, the
//! contract ties it to a named function of the inputs; where the crate's
//! documentation promises more (lengths, when an error comes), it says so.
use vstd::prelude::*;
use chacha20poly1305::aead::{Aead, AeadCore, KeyInit};
use ed25519_dalek::{Signer, Verifier};
use hmac::Mac;
use rand::Rng;
use sha3::Digest;

verus! {

/// The Keccak-256 digest of `data`.
pub uninterp spec fn keccak256_of(data: Seq<u8>) -> Seq<u8>;

/// The BLAKE3 digest of `data`.
pub uninterp spec fn blake3_of(data: Seq<u8>) -> Seq<u8>;

/// The Ed25519 public key of a 32-byte secret key.
pub uninterp spec fn ed25519_public_key_of(secret: Seq<u8>) -> Seq<u8>;

/// The (deterministic) Ed25519 signature of `msg` under a 32-byte secret key.
pub uninterp spec fn ed25519_signature_of(secret: Seq<u8>, msg: Seq<u8>) -> Seq<u8>;

/// The 32 bytes decompress to a point, so that they form a usable public key.
pub uninterp spec fn ed25519_key_decodes(public: Seq<u8>) -> bool;

/// ed25519-dalek's ordinary verification accepts `sig` on `msg` under `public`.
pub uninterp spec fn ed25519_accepts(public: Seq<u8>, msg: Seq<u8>, sig: Seq<u8>) -> bool;

/// ring's Ed25519 verification accepts `sig` on `msg` under `public`.
pub uninterp spec fn ring_ed25519_accepts(public: Seq<u8>, msg: Seq<u8>, sig: Seq<u8>) -> bool;

/// HMAC-SHA256 of `msg` under `key`.
pub uninterp spec fn hmac_sha256_of(key: Seq<u8>, msg: Seq<u8>) -> Seq<u8>;

/// 32 bytes of HKDF-SHA512 output for input key material `ikm`, no salt, and `info`.
pub uninterp spec fn hkdf_sha512_of(ikm: Seq<u8>, info: Seq<u8>) -> Seq<u8>;

/// AES-256-GCM ciphertext with the tag appended, for no associated data.
pub uninterp spec fn aes256gcm_seal_of(key: Seq<u8>, nonce: Seq<u8>, data: Seq<u8>) -> Seq<u8>;

/// The plaintext that AES-256-GCM (aes-gcm's `Aes256Gcm::decrypt`, no
/// associated data) recovers from `sealed` (ciphertext then tag) under `key`
/// and `nonce`; `None` where the tag does not authenticate it.
pub uninterp spec fn aes256gcm_open_of(key: Seq<u8>, nonce: Seq<u8>, sealed: Seq<u8>) -> Option<Seq<u8>>;

/// ChaCha20-Poly1305 ciphertext with the tag appended, for no associated data.
pub uninterp spec fn chacha20poly1305_seal_of(key: Seq<u8>, nonce: Seq<u8>, data: Seq<u8>) -> Seq<u8>;

/// The AEAD crates' opaque error.
#[verifier::external_type_specification]
#[verifier::external_body]
pub struct ExAeadError(chacha20poly1305::aead::Error);

/// `sha3::Keccak256::digest`: the result is the named digest of the input.
#[verifier::external_body]
pub(crate) fn keccak256(data: &[u8]) -> (r: [u8; 32])
    ensures
        r@ == keccak256_of(data@),
{
    sha3::Keccak256::digest(data).into()
}

/// `blake3::hash`: the result is the named digest of the input.
#[verifier::external_body]
pub(crate) fn blake3_hash(data: &[u8]) -> (r: [u8; 32])
    ensures
        r@ == blake3_of(data@),
{
    blake3::hash(data).into()
}

/// `SigningKey::from_bytes(secret).verifying_key().to_bytes()` of ed25519-dalek:
/// the named public key, which, coming from a signing key, always decodes.
#[verifier::external_body]
pub(crate) fn ed25519_public_key(secret: &[u8; 32]) -> (r: [u8; 32])
    ensures
        r@ == ed25519_public_key_of(secret@),
        ed25519_key_decodes(r@),
{
    ed25519_dalek::SigningKey::from_bytes(secret).verifying_key().to_bytes()
}

/// `SigningKey::sign` of ed25519-dalek: the named deterministic signature,
/// which verification under the key's own public key accepts (the crate's
/// documented sign/verify round trip).
#[verifier::external_body]
pub(crate) fn ed25519_sign(secret: &[u8; 32], msg: &[u8]) -> (r: [u8; 64])
    ensures
        r@ == ed25519_signature_of(secret@, msg@),
        ed25519_accepts(ed25519_public_key_of(secret@), msg@, r@),
{
    ed25519_dalek::SigningKey::from_bytes(secret).sign(msg).to_bytes()
}

/// `VerifyingKey::from_bytes(..).is_ok()` of ed25519-dalek: whether the bytes
/// decompress to a point.
#[verifier::external_body]
pub(crate) fn ed25519_key_valid(public: &[u8; 32]) -> (r: bool)
    ensures
        r == ed25519_key_decodes(public@),
{
    ed25519_dalek::VerifyingKey::from_bytes(public).is_ok()
}

/// `VerifyingKey::verify` of ed25519-dalek on a key that decodes: whether the
/// signature is accepted.
#[verifier::external_body]
pub(crate) fn ed25519_verify(public: &[u8; 32], msg: &[u8], sig: &[u8; 64]) -> (r: bool)
    requires
        ed25519_key_decodes(public@),
    ensures
        r == ed25519_accepts(public@, msg@, sig@),
{
    match ed25519_dalek::VerifyingKey::from_bytes(public) {
        Ok(key) => key.verify(msg, &ed25519_dalek::Signature::from_bytes(sig)).is_ok(),
        Err(_) => false,
    }
}

/// `ring::signature::UnparsedPublicKey::new(&ED25519, public).verify(msg, sig).is_ok()`.
#[verifier::external_body]
pub(crate) fn ring_ed25519_verify(public: &[u8], msg: &[u8], sig: &[u8]) -> (r: bool)
    ensures
        r == ring_ed25519_accepts(public@, msg@, sig@),
{
    ring::signature::UnparsedPublicKey::new(&ring::signature::ED25519, public).verify(msg, sig).is_ok()
}

/// HMAC-SHA256 from the hmac and sha2 crates (`new_from_slice` accepts keys of
/// every length): the named tag.
#[verifier::external_body]
pub(crate) fn hmac_sha256(key: &[u8], msg: &[u8]) -> (r: [u8; 32])
    ensures
        r@ == hmac_sha256_of(key@, msg@),
{
    let mut mac = <hmac::Hmac<sha2::Sha256> as Mac>::new_from_slice(key).expect("HMAC takes keys of any length");
    mac.update(msg);
    mac.finalize().into_bytes().into()
}

/// `Hkdf::<Sha512>::new(None, ikm).expand(info, &mut [0u8; 32])` of the hkdf
/// crate (which fails only for outputs above 255 blocks): the named output.
#[verifier::external_body]
pub(crate) fn hkdf_sha512(ikm: &[u8], info: &[u8]) -> (r: [u8; 32])
    ensures
        r@ == hkdf_sha512_of(ikm@, info@),
{
    let mut okm = [0u8; 32];
    hkdf::Hkdf::<sha2::Sha512>::new(None, ikm).expand(info, &mut okm).expect("32 bytes is within HKDF's limit");
    okm
}

/// `Aes256Gcm::encrypt` of the aes-gcm crate with no associated data: it fails
/// exactly for plaintexts above 2^36 bytes; otherwise the named ciphertext,
/// the input's length plus the 16-byte tag, which `Aes256Gcm::decrypt` under
/// the same key and nonce opens to the input.
#[verifier::external_body]
pub(crate) fn aes256gcm_encrypt(key: &[u8; 32], nonce: &[u8; 12], data: &[u8]) -> (r: Result<
    Vec<u8>,
    chacha20poly1305::aead::Error,
>)
    ensures
        r is Ok <==> data@.len() <= 0x10_0000_0000,
        r matches Ok(v) ==> v@ == aes256gcm_seal_of(key@, nonce@, data@) && v@.len() == data@.len()
            + 16,
        r matches Ok(v) ==> aes256gcm_open_of(key@, nonce@, v@) == Some(data@),
{
    aes_gcm::Aes256Gcm::new(key.into()).encrypt(nonce.into(), data)
}

/// `ChaCha20Poly1305::encrypt` of the chacha20poly1305 crate with no associated
/// data: it fails exactly when the input has `u32::MAX` or more 64-byte blocks;
/// otherwise the named ciphertext, the input's length plus the 16-byte tag.
#[verifier::external_body]
pub(crate) fn chacha20poly1305_encrypt(key: &[u8; 32], nonce: &[u8; 12], data: &[u8]) -> (r: Result<
    Vec<u8>,
    chacha20poly1305::aead::Error,
>)
    ensures
        r is Ok <==> data@.len() / 64 < 0xffff_ffff,
        r matches Ok(v) ==> v@ == chacha20poly1305_seal_of(key@, nonce@, data@) && v@.len()
            == data@.len() + 16,
{
    chacha20poly1305::ChaCha20Poly1305::new(key.into()).encrypt(nonce.into(), data)
}

/// A 96-bit nonce from `ChaCha20Poly1305::generate_nonce(&mut OsRng)`; nothing
/// is claimed of its value (it comes from the operating system's generator).
#[verifier::external_body]
pub(crate) fn os_random_nonce() -> [u8; 12] {
    chacha20poly1305::ChaCha20Poly1305::generate_nonce(&mut rand_core::OsRng).into()
}

/// A 96-bit nonce from `rand::thread_rng().gen::<[u8; 12]>()`; nothing is
/// claimed of its value.
#[verifier::external_body]
pub(crate) fn thread_random_nonce() -> [u8; 12] {
    rand::thread_rng().gen::<[u8; 12]>()
}

} // verus!
