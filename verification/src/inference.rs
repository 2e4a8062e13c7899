//! Opening encrypted models for local inference. A model file holds a 96-bit
//! nonce followed by the AES-256-GCM-SIV sealing of the model's weights; a
//! file whose name ends in `.quant` holds a quantized model.
use vstd::prelude::*;
use aes_gcm_siv::aead::{Aead, KeyInit};
use aes_gcm_siv::Aes256GcmSiv;

verus! {

use vstd::string::StringSliceAdditionalSpecFns;

/// The plaintext that AES-256-GCM-SIV (no associated data) recovers from
/// `sealed` under `key` and `nonce`; `None` where the tag does not match.
pub uninterp spec fn aes256gcmsiv_open_of(key: Seq<u8>, nonce: Seq<u8>, sealed: Seq<u8>) -> Option<Seq<u8>>;

/// `Aes256GcmSiv::decrypt` of the aes-gcm-siv crate with no associated data.
#[verifier::external_body]
fn aes256gcmsiv_open(key: &[u8; 32], nonce: &[u8; 12], sealed: &[u8]) -> (r: Option<Vec<u8>>)
    ensures
        match r {
            Some(p) => aes256gcmsiv_open_of(key@, nonce@, sealed@) == Some(p@),
            None => aes256gcmsiv_open_of(key@, nonce@, sealed@) is None,
        },
{
    Aes256GcmSiv::new(key.into()).decrypt(aes_gcm_siv::Nonce::from_slice(nonce), sealed).ok()
}

/// A decrypted model, ready to be loaded by the inference runtime.
pub struct ModelImage {
    pub weights: Vec<u8>,
    pub quantized: bool,
}

/// Why a model could not be opened.
#[derive(Debug, Clone, Copy, PartialEq, Eq, Structural)]
pub enum InfererError {
    /// The file is too short to hold a nonce.
    Truncated,
    /// The file does not decrypt under the key.
    Decryption,
}

/// The suffix `.quant` as UTF-8.
pub open spec fn quantized_suffix() -> Seq<u8> {
    seq![46u8, 113u8, 117u8, 97u8, 110u8, 116u8]
}

/// The path, as UTF-8, ends in `.quant`.
pub open spec fn is_quantized_path(path: Seq<u8>) -> bool {
    path.len() >= 6 && path.subrange(path.len() - 6, path.len() as int) == quantized_suffix()
}

/// What opening the file at `path` with contents `file` under `key` gives: the
/// weights and whether the model is quantized.
pub open spec fn spec_open_model(path: Seq<u8>, file: Seq<u8>, key: Seq<u8>) -> Result<(Seq<u8>, bool), InfererError> {
    if file.len() < 12 {
        Err(InfererError::Truncated)
    } else {
        match aes256gcmsiv_open_of(key, file.subrange(0, 12), file.subrange(12, file.len() as int)) {
            Some(w) => Ok((w, is_quantized_path(path))),
            None => Err(InfererError::Decryption),
        }
    }
}

/// Whether the path names a quantized model.
pub fn quantized_path(path: &str) -> (r: bool)
    ensures
        r == is_quantized_path(path.spec_bytes()),
{
    let b = path.as_bytes();
    let n = b.len();
    if n < 6 {
        return false;
    }
    let suffix: [u8; 6] = [46u8, 113u8, 117u8, 97u8, 110u8, 116u8];
    let mut i: usize = 0;
    while i < 6
        invariant
            i <= 6,
            n == b@.len(),
            b@ == path.spec_bytes(),
            n >= 6,
            suffix@ == quantized_suffix(),
            forall|j: int| 0 <= j < i ==> b@[n - 6 + j] == quantized_suffix()[j],
        decreases 6 - i,
    {
        if b[n - 6 + i] != suffix[i] {
            assert(b@.subrange(n - 6, n as int)[i as int] != quantized_suffix()[i as int]);
            return false;
        }
        i = i + 1;
    }
    assert(b@.subrange(n - 6, n as int) =~= quantized_suffix());
    true
}

/// Decrypts the model file at `path`, whose contents the caller read.
pub fn open_encrypted_model(path: &str, encrypted: &[u8], key: &[u8; 32]) -> (r: Result<ModelImage, InfererError>)
    ensures
        match r {
            Ok(m) => spec_open_model(path.spec_bytes(), encrypted@, key@) == Ok::<(Seq<u8>, bool), InfererError>((m.weights@, m.quantized)),
            Err(e) => spec_open_model(path.spec_bytes(), encrypted@, key@) == Err::<(Seq<u8>, bool), InfererError>(e),
        },
{
    let n = encrypted.len();
    if n < 12 {
        return Err(InfererError::Truncated);
    }
    let mut nonce = [0u8; 12];
    let mut i: usize = 0;
    while i < 12
        invariant
            i <= 12,
            n == encrypted@.len(),
            n >= 12,
            forall|j: int| 0 <= j < i ==> nonce@[j] == encrypted@[j],
        decreases 12 - i,
    {
        nonce[i] = encrypted[i];
        i = i + 1;
    }
    assert(nonce@ =~= encrypted@.subrange(0, 12));
    let mut sealed: Vec<u8> = Vec::new();
    let mut k: usize = 12;
    while k < n
        invariant
            12 <= k <= n,
            n == encrypted@.len(),
            sealed@ == encrypted@.subrange(12, k as int),
        decreases n - k,
    {
        sealed.push(encrypted[k]);
        k = k + 1;
        assert(sealed@ =~= encrypted@.subrange(12, k as int));
    }
    match aes256gcmsiv_open(key, &nonce, sealed.as_slice()) {
        Some(weights) => {
            let quantized = quantized_path(path);
            Ok(ModelImage { weights, quantized })
        },
        None => Err(InfererError::Decryption),
    }
}

} // verus!
