//! The trusted-execution bridge: the inference service in front of the enclave,
//! remote-attestation verdicts, the session channel into the enclave, the
//! edge devices' attestation report data, and protected buffers.
use vstd::prelude::*;
use crate::audit_log::push_bytes;
use crate::crypto::{hmac_sha256, hmac_sha256_of};
use openssl::error::ErrorStack;
use openssl::pkey::Public;
use openssl::rsa::Rsa;
use openssl::x509::X509;

verus! {

/// Why a trusted-execution operation failed.
#[derive(Debug, Clone, Copy, PartialEq, Eq, Structural)]
pub enum TeeError {
    /// The attestation service did not vouch for the enclave's quote.
    AttestationFailed,
    /// The quote could not be parsed or checked.
    InvalidQuote,
    /// The enclave call did not report success.
    ExecutionFailed,
    /// The attestation root certificate could not be parsed.
    InvalidCertificate,
    /// OpenSSL refused a cryptographic operation.
    Crypto,
}

// ---------------------------------------------------------------------------
// OpenSSL, as the session channel and the verifier use it.
// ---------------------------------------------------------------------------

/// OpenSSL's error stack.
#[verifier::external_type_specification]
#[verifier::external_body]
pub struct ExErrorStack(ErrorStack);

/// An OpenSSL RSA key.
#[verifier::external_type_specification]
#[verifier::external_body]
#[verifier::reject_recursive_types(T)]
pub struct ExRsa<T>(Rsa<T>);

/// The marker for public keys.
#[verifier::external_type_specification]
#[verifier::external_body]
pub struct ExPublic(Public);

/// An OpenSSL X.509 certificate.
#[verifier::external_type_specification]
#[verifier::external_body]
pub struct ExX509(X509);

/// AES-256-GCM as `openssl::symm::encrypt_aead` computes it with no associated
/// data and a 16-byte tag: the ciphertext and the tag.
pub uninterp spec fn openssl_aes256gcm_of(key: Seq<u8>, iv: Seq<u8>, data: Seq<u8>) -> (Seq<u8>, Seq<u8>);

/// AES-256-GCM opening as `openssl::symm::decrypt_aead` computes it with no
/// associated data: the plaintext of `ct` under `key` and `iv` if `tag`
/// authenticates it, else `None`.
pub uninterp spec fn openssl_aes256gcm_open_of(key: Seq<u8>, iv: Seq<u8>, ct: Seq<u8>, tag: Seq<u8>) -> Option<Seq<u8>>;

/// `Rsa::public_key_from_pem` accepts the text: it holds a PEM `PUBLIC KEY`
/// block with an RSA key.
pub uninterp spec fn rsa_public_pem_parses(pem: Seq<u8>) -> bool;

/// `X509::from_pem` accepts the text: it holds a PEM certificate.
pub uninterp spec fn x509_pem_parses(pem: Seq<u8>) -> bool;

/// `openssl::rand::rand_bytes` into an `N`-byte buffer. Nothing is claimed of the
/// bytes; the call asserts that the buffer is at most `c_int::MAX` long.
#[verifier::external_body]
fn openssl_random<const N: usize>() -> (r: Result<[u8; N], ErrorStack>)
    requires
        N <= 0x7fff_ffff,
{
    let mut buf = [0u8; N];
    openssl::rand::rand_bytes(&mut buf)?;
    Ok(buf)
}

/// `openssl::symm::encrypt_aead` with `Cipher::aes_256_gcm()`, the given IV, no
/// associated data and a 16-byte tag. When it succeeds, the ciphertext and tag
/// are `openssl_aes256gcm_of(key, iv, data)`; GCM is a stream mode, so the
/// ciphertext is as long as the data, and opening it with the same key, IV and
/// tag gives the data back. When it fails is not stated. The call unwraps the
/// conversion of the input length to `c_int`.
#[verifier::external_body]
fn openssl_aes256gcm_encrypt(key: &[u8; 32], iv: &[u8; 12], data: &[u8]) -> (r: Result<
    (Vec<u8>, [u8; 16]),
    ErrorStack,
>)
    requires
        data@.len() <= 0x7fff_ffff,
    ensures
        r matches Ok((ct, tag)) ==> {
            &&& (ct@, tag@) == openssl_aes256gcm_of(key@, iv@, data@)
            &&& ct@.len() == data@.len()
            &&& openssl_aes256gcm_open_of(key@, iv@, ct@, tag@) == Some(data@)
        },
{
    let mut tag = [0u8; 16];
    let ct = openssl::symm::encrypt_aead(
        openssl::symm::Cipher::aes_256_gcm(),
        key,
        Some(iv),
        &[],
        data,
        &mut tag,
    )?;
    Ok((ct, tag))
}

/// `openssl::symm::decrypt_aead` with `Cipher::aes_256_gcm()`, the given IV, no
/// associated data and the given tag. What it returns is the named opening;
/// where the tag does not authenticate the ciphertext it fails. The call
/// unwraps the conversion of the input length to `c_int`.
#[verifier::external_body]
fn openssl_aes256gcm_decrypt(key: &[u8; 32], iv: &[u8; 12], ct: &[u8], tag: &[u8; 16]) -> (r: Result<Vec<u8>, ErrorStack>)
    requires
        ct@.len() <= 0x7fff_ffff,
    ensures
        r matches Ok(p) ==> openssl_aes256gcm_open_of(key@, iv@, ct@, tag@) == Some(p@),
        openssl_aes256gcm_open_of(key@, iv@, ct@, tag@) is None ==> r is Err,
{
    openssl::symm::decrypt_aead(openssl::symm::Cipher::aes_256_gcm(), key, Some(iv), &[], ct, tag)
}

/// `Rsa::public_key_from_pem`: parses a PEM `PUBLIC KEY` block; it succeeds
/// exactly for the texts named by `rsa_public_pem_parses`. The call asserts
/// that the text is at most `c_int::MAX` bytes long.
#[verifier::external_body]
fn rsa_public_key_from_pem(pem: &[u8]) -> (r: Result<Rsa<Public>, ErrorStack>)
    requires
        pem@.len() <= 0x7fff_ffff,
    ensures
        r is Ok <==> rsa_public_pem_parses(pem@),
{
    Rsa::public_key_from_pem(pem)
}

/// `Rsa::public_encrypt` with OAEP padding into a buffer of the key's size,
/// truncated to what was written. The output is randomised; nothing is claimed
/// of it. The call asserts that the input is at most `i32::MAX` bytes long.
#[verifier::external_body]
fn rsa_oaep_encrypt(key: &Rsa<Public>, data: &[u8]) -> (r: Result<Vec<u8>, ErrorStack>)
    requires
        data@.len() <= 0x7fff_ffff,
{
    let mut out = vec![0u8; key.size() as usize];
    let written = key.public_encrypt(data, &mut out, openssl::rsa::Padding::PKCS1_OAEP)?;
    out.truncate(written);
    Ok(out)
}

/// `X509::from_pem`: parses a PEM certificate; it succeeds exactly for the
/// texts named by `x509_pem_parses`. The call asserts that the text is at most
/// `c_int::MAX` bytes long.
#[verifier::external_body]
fn x509_from_pem(pem: &[u8]) -> (r: Result<X509, ErrorStack>)
    requires
        pem@.len() <= 0x7fff_ffff,
    ensures
        r is Ok <==> x509_pem_parses(pem@),
{
    X509::from_pem(pem)
}

// ---------------------------------------------------------------------------
// The inference service.
// ---------------------------------------------------------------------------

/// An inference request: the model input, encrypted for the enclave.
pub struct InferenceRequest {
    pub encrypted_input: Vec<u8>,
}

/// An inference response: the enclave's encrypted output and its proof.
pub struct InferenceResponse {
    pub encrypted_output: Vec<u8>,
    pub proof: Vec<u8>,
}

/// The status a failed call returns to the RPC client.
#[derive(Debug, PartialEq, Eq)]
pub enum ServiceStatus {
    /// The service failed internally; the message says why.
    Internal(String),
}

/// The inference service that forwards requests into a trusted enclave.
pub struct TeeServiceImpl {}

/// What the service answers for the enclave's outcome: the output with an
/// empty proof, or an internal error carrying the enclave's message.
pub open spec fn spec_inference_answer(outcome: Result<Vec<u8>, String>) -> Result<(Seq<u8>, Seq<u8>), Seq<char>> {
    match outcome {
        Ok(out) => Ok((out@, Seq::empty())),
        Err(msg) => Err(msg@),
    }
}

/// The message with which a service without an enclave refuses a call.
pub open spec fn unbound_enclave_message() -> Seq<char> {
    "no SGX enclave is bound to this service"@
}

impl TeeServiceImpl {
    pub fn new() -> (r: Self) {
        TeeServiceImpl {}
    }

    /// Runs `payload` in the SGX enclave. This service holds no enclave
    /// binding, so every call is refused with `unbound_enclave_message()`.
    pub fn sgx_enclave_call(&self, payload: &[u8]) -> (r: Result<Vec<u8>, String>)
        ensures
            r matches Err(m) && m@ == unbound_enclave_message(),
    {
        Err("no SGX enclave is bound to this service".to_owned())
    }

    /// The answer to a request, given what the enclave call returned.
    pub fn inference_answer(outcome: Result<Vec<u8>, String>) -> (r: Result<InferenceResponse, ServiceStatus>)
        ensures
            spec_inference_answer(outcome) == match r {
                Ok(resp) => Ok((resp.encrypted_output@, resp.proof@)),
                Err(ServiceStatus::Internal(msg)) => Err(msg@),
            },
    {
        match outcome {
            Ok(out) => Ok(InferenceResponse { encrypted_output: out, proof: Vec::new() }),
            Err(msg) => Err(ServiceStatus::Internal(msg)),
        }
    }

    /// Runs the request's input in the enclave and answers with its output.
    pub fn secure_inference(&self, request: InferenceRequest) -> (r: Result<InferenceResponse, ServiceStatus>)
        ensures
            r matches Err(ServiceStatus::Internal(m)) && m@ == unbound_enclave_message(),
    {
        let outcome = self.sgx_enclave_call(request.encrypted_input.as_slice());
        Self::inference_answer(outcome)
    }
}

// ---------------------------------------------------------------------------
// Remote attestation.
// ---------------------------------------------------------------------------

/// Something that checks an enclave's attestation report.
pub trait AttestationVerifier {
    fn verify_report(&self, report: &[u8]) -> Result<(), TeeError>;
}

/// What the quote verification service made of an enclave's quote.
#[derive(Debug, Clone, Copy, PartialEq, Eq, Structural)]
pub enum QuoteOutcome {
    /// The report did not parse as an SGX quote.
    Unparsable,
    /// The verifier could not check the quote.
    CheckFailed,
    /// The quote was checked and found wanting.
    Rejected,
    /// The quote was checked and is genuine.
    Accepted,
}

/// The verdict on a report for each outcome of the quote check.
pub open spec fn spec_report_verdict(outcome: QuoteOutcome) -> Result<(), TeeError> {
    match outcome {
        QuoteOutcome::Unparsable => Err(TeeError::InvalidQuote),
        QuoteOutcome::CheckFailed => Err(TeeError::InvalidQuote),
        QuoteOutcome::Rejected => Err(TeeError::AttestationFailed),
        QuoteOutcome::Accepted => Ok(()),
    }
}

/// Verifies enclave quotes against a service provider id and a root certificate.
pub struct RemoteAttestationVerifier {
    spid: Vec<u8>,
    root_ca: X509,
}

impl RemoteAttestationVerifier {
    pub closed spec fn spid_view(&self) -> Seq<u8> {
        self.spid@
    }

    /// A verifier for the service provider `spid`, trusting the root
    /// certificate given as PEM text.
    pub fn new(spid: &[u8], root_ca_pem: &[u8]) -> (r: Result<Self, TeeError>)
        requires
            root_ca_pem@.len() <= 0x7fff_ffff,
        ensures
            r is Ok <==> x509_pem_parses(root_ca_pem@),
            r matches Ok(v) ==> v.spid_view() == spid@,
            r matches Err(e) ==> e == TeeError::InvalidCertificate,
    {
        match x509_from_pem(root_ca_pem) {
            Ok(root_ca) => {
                let mut own: Vec<u8> = Vec::new();
                push_bytes(&mut own, spid);
                assert(own@ =~= spid@);
                Ok(RemoteAttestationVerifier { spid: own, root_ca })
            },
            Err(_) => Err(TeeError::InvalidCertificate),
        }
    }

    /// The service provider id this verifier presents.
    pub fn spid(&self) -> (r: &[u8])
        ensures
            r@ == self.spid_view(),
    {
        self.spid.as_slice()
    }

    /// The verdict on a report, given the outcome of checking its quote.
    pub fn report_verdict(outcome: QuoteOutcome) -> (r: Result<(), TeeError>)
        ensures
            r == spec_report_verdict(outcome),
    {
        match outcome {
            QuoteOutcome::Unparsable => Err(TeeError::InvalidQuote),
            QuoteOutcome::CheckFailed => Err(TeeError::InvalidQuote),
            QuoteOutcome::Rejected => Err(TeeError::AttestationFailed),
            QuoteOutcome::Accepted => Ok(()),
        }
    }
}

// ---------------------------------------------------------------------------
// Calls into the enclave.
// ---------------------------------------------------------------------------

/// The SGX status code for success.
pub const SGX_SUCCESS: u32 = 0;

/// An enclave call succeeded only if both the call itself and the enclave's
/// own return value report `SGX_SUCCESS`.
pub fn check_ecall_status(status: u32, retval: u32) -> (r: Result<(), TeeError>)
    ensures
        r is Ok <==> status == SGX_SUCCESS && retval == SGX_SUCCESS,
        r matches Err(e) ==> e == TeeError::ExecutionFailed,
{
    if status != SGX_SUCCESS || retval != SGX_SUCCESS {
        Err(TeeError::ExecutionFailed)
    } else {
        Ok(())
    }
}

// ---------------------------------------------------------------------------
// The session channel into the enclave.
// ---------------------------------------------------------------------------

/// The keys of an encrypted session with an attested enclave.
pub struct SessionCipher {
    session_key: [u8; 32],
    hmac_key: [u8; 32],
}

/// A sealed payload: the IV, the AES-256-GCM ciphertext, then the tag.
pub open spec fn sealed_payload(key: Seq<u8>, iv: Seq<u8>, data: Seq<u8>) -> Seq<u8> {
    iv + openssl_aes256gcm_of(key, iv, data).0 + openssl_aes256gcm_of(key, iv, data).1
}

/// What opening a sealed payload under `key` gives: its first 12 bytes are the
/// IV and its last 16 the tag; `None` for a payload too short to hold both, or
/// one whose tag does not authenticate it.
pub open spec fn spec_open_payload(key: Seq<u8>, sealed: Seq<u8>) -> Option<Seq<u8>> {
    if sealed.len() < 28 {
        None
    } else {
        openssl_aes256gcm_open_of(
            key,
            sealed.subrange(0, 12),
            sealed.subrange(12, sealed.len() - 16),
            sealed.subrange(sealed.len() - 16, sealed.len() as int),
        )
    }
}

impl SessionCipher {
    pub closed spec fn session_key_view(&self) -> Seq<u8> {
        self.session_key@
    }

    pub closed spec fn hmac_key_view(&self) -> Seq<u8> {
        self.hmac_key@
    }

    /// A session over keys already agreed with the enclave.
    pub fn from_keys(session_key: [u8; 32], hmac_key: [u8; 32]) -> (r: Self)
        ensures
            r.session_key_view() == session_key@,
            r.hmac_key_view() == hmac_key@,
    {
        SessionCipher { session_key, hmac_key }
    }

    /// Opens a session with the given session and MAC keys with the enclave
    /// whose attested RSA public key is given as PEM text: the session key is
    /// wrapped for the enclave with RSA-OAEP.
    pub fn new_from_attestation_with_keys(
        attested_pubkey: &[u8],
        session_key: [u8; 32],
        hmac_key: [u8; 32],
    ) -> (r: Result<Self, TeeError>)
        requires
            attested_pubkey@.len() <= 0x7fff_ffff,
        ensures
            !rsa_public_pem_parses(attested_pubkey@) ==> r is Err,
            r matches Ok(c) ==> {
                &&& rsa_public_pem_parses(attested_pubkey@)
                &&& c.session_key_view() == session_key@
                &&& c.hmac_key_view() == hmac_key@
            },
            r matches Err(e) ==> e == TeeError::Crypto,
    {
        let rsa = match rsa_public_key_from_pem(attested_pubkey) {
            Ok(k) => k,
            Err(_) => return Err(TeeError::Crypto),
        };
        match rsa_oaep_encrypt(&rsa, &session_key) {
            Ok(_) => {},
            Err(_) => return Err(TeeError::Crypto),
        }
        Ok(SessionCipher::from_keys(session_key, hmac_key))
    }

    /// Opens a session with the enclave whose attested RSA public key is given
    /// as PEM text: draws a fresh session key and MAC key and wraps the session
    /// key for the enclave with RSA-OAEP.
    pub fn new_from_attestation(attested_pubkey: &[u8]) -> (r: Result<Self, TeeError>)
        requires
            attested_pubkey@.len() <= 0x7fff_ffff,
        ensures
            !rsa_public_pem_parses(attested_pubkey@) ==> r is Err,
            r is Ok ==> rsa_public_pem_parses(attested_pubkey@),
            r matches Err(e) ==> e == TeeError::Crypto,
    {
        let session_key: [u8; 32] = match openssl_random::<32>() {
            Ok(k) => k,
            Err(_) => return Err(TeeError::Crypto),
        };
        let hmac_key: [u8; 32] = match openssl_random::<32>() {
            Ok(k) => k,
            Err(_) => return Err(TeeError::Crypto),
        };
        SessionCipher::new_from_attestation_with_keys(attested_pubkey, session_key, hmac_key)
    }

    /// Seals `data` under the session key with the given IV.
    pub fn encrypt_payload_with_iv(&self, iv: &[u8; 12], data: &[u8]) -> (r: Result<Vec<u8>, TeeError>)
        requires
            data@.len() <= 0x7fff_ffff,
        ensures
            r matches Ok(v) ==> {
                &&& v@ == sealed_payload(self.session_key_view(), iv@, data@)
                &&& openssl_aes256gcm_of(self.session_key_view(), iv@, data@).0.len() == data@.len()
                &&& v@.len() == 12 + data@.len() + 16
                &&& spec_open_payload(self.session_key_view(), v@) == Some(data@)
            },
            r matches Err(e) ==> e == TeeError::Crypto,
    {
        match openssl_aes256gcm_encrypt(&self.session_key, iv, data) {
            Ok((ct, tag)) => {
                let mut out: Vec<u8> = Vec::new();
                let mut i: usize = 0;
                while i < 12
                    invariant
                        i <= 12,
                        out@ == iv@.subrange(0, i as int),
                    decreases 12 - i,
                {
                    out.push(iv[i]);
                    i = i + 1;
                }
                let mut j: usize = 0;
                while j < ct.len()
                    invariant
                        j <= ct@.len(),
                        out@ == iv@ + ct@.subrange(0, j as int),
                    decreases ct@.len() - j,
                {
                    out.push(ct[j]);
                    j = j + 1;
                }
                let mut k: usize = 0;
                while k < 16
                    invariant
                        k <= 16,
                        out@ == iv@ + ct@ + tag@.subrange(0, k as int),
                    decreases 16 - k,
                {
                    out.push(tag[k]);
                    k = k + 1;
                }
                assert(iv@.subrange(0, 12) =~= iv@);
                assert(ct@.subrange(0, ct@.len() as int) =~= ct@);
                assert(tag@.subrange(0, 16) =~= tag@);
                assert(out@.subrange(0, 12) =~= iv@);
                assert(out@.subrange(12, out@.len() - 16) =~= ct@);
                assert(out@.subrange(out@.len() - 16, out@.len() as int) =~= tag@);
                Ok(out)
            },
            Err(_) => Err(TeeError::Crypto),
        }
    }

    /// Seals `data` under the session key with a fresh random IV.
    pub fn encrypt_payload(&self, data: &[u8]) -> (r: Result<Vec<u8>, TeeError>)
        requires
            data@.len() <= 0x7fff_ffff,
        ensures
            r matches Ok(v) ==> {
                &&& exists|iv: Seq<u8>|
                    iv.len() == 12 && v@ == #[trigger] sealed_payload(self.session_key_view(), iv, data@)
                        && openssl_aes256gcm_of(self.session_key_view(), iv, data@).0.len() == data@.len()
                &&& v@.len() == 12 + data@.len() + 16
                &&& spec_open_payload(self.session_key_view(), v@) == Some(data@)
            },
            r matches Err(e) ==> e == TeeError::Crypto,
    {
        let iv: [u8; 12] = match openssl_random::<12>() {
            Ok(iv) => iv,
            Err(_) => return Err(TeeError::Crypto),
        };
        let r = self.encrypt_payload_with_iv(&iv, data);
        assert(r matches Ok(v) ==> v@ == sealed_payload(self.session_key_view(), iv@, data@));
        r
    }

    /// Opens a payload sealed under the session key (the enclave's response).
    pub fn decrypt_payload(&self, sealed: &[u8]) -> (r: Result<Vec<u8>, TeeError>)
        requires
            sealed@.len() <= 0x7fff_ffff,
        ensures
            r matches Ok(p) ==> spec_open_payload(self.session_key_view(), sealed@) == Some(p@),
            spec_open_payload(self.session_key_view(), sealed@) is None ==> r is Err,
            r matches Err(e) ==> e == TeeError::Crypto,
    {
        let n = sealed.len();
        if n < 28 {
            return Err(TeeError::Crypto);
        }
        let mut iv = [0u8; 12];
        let mut i: usize = 0;
        while i < 12
            invariant
                i <= 12,
                n == sealed@.len(),
                n >= 28,
                forall|j: int| 0 <= j < i ==> iv@[j] == sealed@[j],
            decreases 12 - i,
        {
            iv[i] = sealed[i];
            i = i + 1;
        }
        let mut tag = [0u8; 16];
        let mut t: usize = 0;
        while t < 16
            invariant
                t <= 16,
                n == sealed@.len(),
                n >= 28,
                forall|j: int| 0 <= j < t ==> tag@[j] == sealed@[n - 16 + j],
            decreases 16 - t,
        {
            tag[t] = sealed[n - 16 + t];
            t = t + 1;
        }
        let mut ct: Vec<u8> = Vec::new();
        let mut k: usize = 12;
        while k < n - 16
            invariant
                12 <= k <= n - 16,
                n == sealed@.len(),
                n >= 28,
                ct@ == sealed@.subrange(12, k as int),
            decreases n - 16 - k,
        {
            ct.push(sealed[k]);
            k = k + 1;
            assert(ct@ =~= sealed@.subrange(12, k as int));
        }
        assert(iv@ =~= sealed@.subrange(0, 12));
        assert(tag@ =~= sealed@.subrange(n - 16, n as int));
        match openssl_aes256gcm_decrypt(&self.session_key, &iv, ct.as_slice(), &tag) {
            Ok(p) => Ok(p),
            Err(_) => Err(TeeError::Crypto),
        }
    }
}

// ---------------------------------------------------------------------------
// Edge-device attestation.
// ---------------------------------------------------------------------------

/// A remote attestation report of an edge device.
pub struct AttestationReport {
    pub device_id: [u8; 32],
    pub hardware_report: Vec<u8>,
    pub signature: Vec<u8>,
}

/// An edge device that attests itself to challengers.
pub struct EdgeAttestation {
    device_id: [u8; 32],
}

/// The 64 bytes of SGX report data bound to a challenge: the HMAC-SHA256 tag of
/// the challenge under the device id, then zeros.
pub open spec fn spec_report_data(device_id: Seq<u8>, challenge: Seq<u8>) -> Seq<u8> {
    hmac_sha256_of(device_id, challenge) + Seq::new(32, |i: int| 0u8)
}

impl EdgeAttestation {
    pub closed spec fn device_id_view(&self) -> Seq<u8> {
        self.device_id@
    }

    pub fn new(device_id: [u8; 32]) -> (r: Self)
        ensures
            r.device_id_view() == device_id@,
    {
        EdgeAttestation { device_id }
    }

    /// The report data that binds the hardware quote to `challenge`.
    pub fn create_report_data(&self, challenge: &[u8]) -> (r: [u8; 64])
        ensures
            r@ == spec_report_data(self.device_id_view(), challenge@),
    {
        let tag = hmac_sha256(&self.device_id, challenge);
        let mut out = [0u8; 64];
        let mut i: usize = 0;
        while i < 32
            invariant
                i <= 32,
                out@.len() == 64,
                forall|j: int| 0 <= j < i ==> out@[j] == tag@[j],
                forall|j: int| 32 <= j < 64 ==> out@[j] == 0u8,
            decreases 32 - i,
        {
            out[i] = tag[i];
            i = i + 1;
        }
        assert(out@ =~= spec_report_data(self.device_id_view(), challenge@));
        out
    }

    /// The report for a hardware quote and the device's signature over it.
    pub fn attestation_report(&self, hardware_report: Vec<u8>, signature: Vec<u8>) -> (r: AttestationReport)
        ensures
            r.device_id@ == self.device_id_view(),
            r.hardware_report@ == hardware_report@,
            r.signature@ == signature@,
    {
        AttestationReport { device_id: self.device_id, hardware_report, signature }
    }
}

// ---------------------------------------------------------------------------
// Protected buffers.
// ---------------------------------------------------------------------------

/// Bytes held in enclave-protected memory, wiped on request.
pub struct SecureBuffer {
    data: Vec<u8>,
}

impl View for SecureBuffer {
    type V = Seq<u8>;

    closed spec fn view(&self) -> Seq<u8> {
        self.data@
    }
}

impl SecureBuffer {
    /// A protected buffer holding `data`.
    pub fn allocate_secure(data: Vec<u8>) -> (r: Self)
        ensures
            r@ == data@,
    {
        SecureBuffer { data }
    }

    /// The bytes the buffer holds.
    pub fn as_bytes(&self) -> (r: &[u8])
        ensures
            r@ == self@,
    {
        self.data.as_slice()
    }

    /// Overwrites every byte with zero, keeping the length.
    pub fn zeroize(&mut self)
        ensures
            final(self)@.len() == old(self)@.len(),
            forall|i: int| 0 <= i < final(self)@.len() ==> final(self)@[i] == 0u8,
    {
        let n = self.data.len();
        let mut i: usize = 0;
        while i < n
            invariant
                i <= n,
                n == old(self)@.len(),
                self.data@.len() == n,
                forall|j: int| 0 <= j < i ==> self.data@[j] == 0u8,
            decreases n - i,
        {
            self.data[i] = 0u8;
            i = i + 1;
        }
    }
}

} // verus!
