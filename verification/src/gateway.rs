//! The API gateway's decisions: how an inference request is answered once its
//! signature has been checked and the enclave has run.
use vstd::prelude::*;

verus! {

/// The gateway's answer to an inference request.
#[derive(Debug, PartialEq, Eq)]
pub enum InferenceReply {
    /// 401: the request's signature was not valid.
    Unauthorized,
    /// 500: the enclave failed; the message says why.
    InternalError(String),
    /// 200: the enclave's output.
    Output(Vec<u8>),
}

/// The reply for a request: refused unless its signature is valid, and
/// otherwise the enclave's output or its error.
pub open spec fn spec_inference_reply(
    signature_valid: bool,
    tee_result: Result<Vec<u8>, String>,
    reply: InferenceReply,
) -> bool {
    if !signature_valid {
        reply == InferenceReply::Unauthorized
    } else {
        match (tee_result, reply) {
            (Ok(out), InferenceReply::Output(body)) => body@ == out@,
            (Err(msg), InferenceReply::InternalError(text)) => text@ == msg@,
            _ => false,
        }
    }
}

/// Decides the reply to an inference request from the signature check and
/// from what the enclave returned.
pub fn inference_reply(signature_valid: bool, tee_result: Result<Vec<u8>, String>) -> (r: InferenceReply)
    ensures
        spec_inference_reply(signature_valid, tee_result, r),
{
    if !signature_valid {
        return InferenceReply::Unauthorized;
    }
    match tee_result {
        Ok(out) => InferenceReply::Output(out),
        Err(msg) => InferenceReply::InternalError(msg),
    }
}

/// A recoverable secp256k1 signature over a request, as Ethereum writes it.
#[derive(Debug, Clone, Copy)]
pub struct RequestSignature {
    pub v: u8,
    pub r: [u8; 32],
    pub s: [u8; 32],
}

/// The Ethereum address of the key that made the signature `(v, r, s)` over the
/// 32-byte message hash `message`, as ethsign recovers it; `None` where
/// recovery fails (a recovery id or signature that does not parse, a message
/// that is not 32 bytes, or no key recovers).
pub uninterp spec fn ethsign_recover_address_of(v: u8, r: Seq<u8>, s: Seq<u8>, message: Seq<u8>) -> Option<Seq<u8>>;

/// `ethsign::Signature::recover` followed by `PublicKey::address`.
#[verifier::external_body]
fn recover_signer(signature: &RequestSignature, message: &[u8]) -> (r: Option<[u8; 20]>)
    ensures
        match r {
            Some(a) => ethsign_recover_address_of(signature.v, signature.r@, signature.s@, message@) == Some(a@),
            None => ethsign_recover_address_of(signature.v, signature.r@, signature.s@, message@) is None,
        },
{
    let sig = ethsign::Signature { v: signature.v, r: signature.r, s: signature.s };
    match sig.recover(message) {
        Ok(public) => Some(*public.address()),
        Err(_) => None,
    }
}

/// The signature recovers to an address.
pub open spec fn signer_recovers(message: Seq<u8>, signature: RequestSignature) -> bool {
    ethsign_recover_address_of(signature.v, signature.r@, signature.s@, message) is Some
}

/// The request was signed by the authorized address.
pub open spec fn signed_by(message: Seq<u8>, signature: RequestSignature, authorized: Seq<u8>) -> bool {
    ethsign_recover_address_of(signature.v, signature.r@, signature.s@, message) == Some(authorized)
}

/// Whether the request was signed by the authorized address, for a signature
/// from which an address recovers.
pub fn verify_request_signature(message: &[u8], signature: &RequestSignature, authorized: &[u8; 20]) -> (r: bool)
    requires
        signer_recovers(message@, *signature),
    ensures
        r == signed_by(message@, *signature, authorized@),
{
    match recover_signer(signature, message) {
        Some(signer) => {
            let mut i: usize = 0;
            while i < 20
                invariant
                    i <= 20,
                    forall|j: int| 0 <= j < i ==> signer@[j] == authorized@[j],
                    ethsign_recover_address_of(signature.v, signature.r@, signature.s@, message@) == Some(signer@),
                decreases 20 - i,
            {
                if signer[i] != authorized[i] {
                    assert(signer@[i as int] != authorized@[i as int]);
                    assert(signer@ != authorized@);
                    return false;
                }
                i = i + 1;
            }
            assert(signer@ =~= authorized@);
            true
        },
        None => false,
    }
}

/// `verify_request_signature` for any signature: `None` where no address
/// recovers from it (where that function's precondition fails).
pub fn try_verify_request_signature(message: &[u8], signature: &RequestSignature, authorized: &[u8; 20]) -> (r: Option<bool>)
    ensures
        r is None <==> !signer_recovers(message@, *signature),
        r matches Some(b) ==> b == signed_by(message@, *signature, authorized@),
{
    match recover_signer(signature, message) {
        Some(_) => Some(verify_request_signature(message, signature, authorized)),
        None => None,
    }
}

/// The sustained request rate the gateway admits, per second.
pub const REQUESTS_PER_SECOND: u32 = 1000;

/// The burst of requests the gateway admits at once.
pub const REQUEST_BURST: u32 = 5000;

} // verus!
