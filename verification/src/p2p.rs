//! Federated-learning parameter exchange between peers.
use vstd::prelude::*;
use crate::crypto::{ring_ed25519_accepts, ring_ed25519_verify};

verus! {

/// A model update sent to peers, signed over its nonce.
pub struct FederatedMessage {
    /// Serialized model tensors.
    pub model_parameters: Vec<u8>,
    pub nonce: [u8; 32],
    pub signature: Vec<u8>,
}

impl FederatedMessage {
    /// Whether the signature is a valid Ed25519 signature of the nonce under
    /// `public_key` (as ring checks it).
    pub fn verify(&self, public_key: &[u8]) -> (r: bool)
        ensures
            r == ring_ed25519_accepts(public_key@, self.nonce@, self.signature@),
    {
        ring_ed25519_verify(public_key, &self.nonce, self.signature.as_slice())
    }
}

} // verus!
