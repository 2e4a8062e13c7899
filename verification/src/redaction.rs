//! Redactable audit values: a logged value is replaced by a Pedersen commitment
//! together with a Bulletproofs range proof that the committed value is a
//! 64-bit unsigned integer.
use vstd::prelude::*;
use bulletproofs::{BulletproofGens, PedersenGens, RangeProof};
use curve25519_dalek_ng::ristretto::CompressedRistretto;
use curve25519_dalek_ng::scalar::Scalar;
use merlin::Transcript;

verus! {

/// The compressed Pedersen commitment to `value` with the blinding factor
/// `mask` (as a little-endian integer reduced modulo the group order), under
/// bulletproofs' default Pedersen generators.
pub uninterp spec fn pedersen_commitment_of(value: u64, mask: Seq<u8>) -> Seq<u8>;

/// `proof` is a range proof, for a transcript labelled `label`, that the value
/// committed to in `commitment` lies in `[0, 2^64)`: the verification equations
/// of bulletproofs' `RangeProof::verify_single` hold for it.
pub uninterp spec fn range_proof_holds(label: Seq<char>, proof: Seq<u8>, commitment: Seq<u8>) -> bool;

/// `RangeProof::from_bytes` of bulletproofs accepts `proof`: its length and
/// its encoded points and scalars are those of a range proof.
pub uninterp spec fn range_proof_decodes(proof: Seq<u8>) -> bool;

/// `RangeProof::prove_single` of bulletproofs, with generators
/// `BulletproofGens::new(gens_capacity, 1)` and `PedersenGens::default()`, a
/// transcript labelled `label`, and the blinding factor
/// `Scalar::from_bytes_mod_order(mask)`; returns the compressed commitment and
/// the proof's bytes. With a 64-bit range every `u64` is in range and the
/// parameters are ones the prover accepts, so it succeeds; the proof is
/// randomised, and what is claimed of it is that it holds for the commitment.
#[verifier::external_body]
fn prove_range(gens_capacity: usize, label: &'static str, bits: usize, value: u64, mask: &[u8; 32]) -> (r: (
    [u8; 32],
    Vec<u8>,
))
    requires
        bits == 64,
        gens_capacity >= bits,
    ensures
        r.0@ == pedersen_commitment_of(value, mask@),
        range_proof_holds(label@, r.1@, r.0@),
{
    let bp_gens = BulletproofGens::new(gens_capacity, 1);
    let pc_gens = PedersenGens::default();
    let mut transcript = Transcript::new(label.as_bytes());
    let blinding = Scalar::from_bytes_mod_order(*mask);
    let (proof, commitment) = RangeProof::prove_single(&bp_gens, &pc_gens, &mut transcript, value, &blinding, bits)
        .expect("a 64-bit range with enough generators is accepted");
    (commitment.to_bytes(), proof.to_bytes())
}

/// `RangeProof::from_bytes` then `verify_single` of bulletproofs with the same
/// generators and transcript label as `prove_range`. A proof that holds is
/// accepted, and bytes that do not decode as a proof are refused. The check
/// combines the equations with random weights, so that a decoded proof that
/// does not hold is rejected except with negligible probability; that
/// direction is not stated.
#[verifier::external_body]
fn verify_range(gens_capacity: usize, label: &'static str, bits: usize, proof: &[u8], commitment: &[u8; 32]) -> (r: bool)
    requires
        bits == 64,
        gens_capacity >= bits,
    ensures
        range_proof_holds(label@, proof@, commitment@) ==> r,
        !range_proof_decodes(proof@) ==> !r,
{
    match RangeProof::from_bytes(proof) {
        Ok(p) => {
            let bp_gens = BulletproofGens::new(gens_capacity, 1);
            let pc_gens = PedersenGens::default();
            let mut transcript = Transcript::new(label.as_bytes());
            p.verify_single(&bp_gens, &pc_gens, &mut transcript, &CompressedRistretto(*commitment), bits).is_ok()
        },
        Err(_) => false,
    }
}

/// A redacted value: the commitment that stands for it and the proof that it is
/// a 64-bit value.
pub struct RedactedEntry {
    pub commitment: [u8; 32],
    pub proof: Vec<u8>,
}

/// Why a redacted value was refused.
#[derive(Debug, Clone, Copy, PartialEq, Eq, Structural)]
pub enum RedactionError {
    /// The range proof did not verify.
    InvalidProof,
}

/// The transcript label of the audit trail's range proofs.
pub open spec fn redaction_label() -> Seq<char> {
    "RedactedAudit"@
}

/// `commitment` and `proof` are what the logger makes of `value` under `mask`:
/// the commitment to the value, and a range proof that holds for it.
pub open spec fn redacted_form_of(value: u64, mask: Seq<u8>, commitment: Seq<u8>, proof: Seq<u8>) -> bool {
    &&& commitment == pedersen_commitment_of(value, mask)
    &&& range_proof_holds(redaction_label(), proof, commitment)
}

/// `outcome` is a verdict the logger may give on `commitment` and `proof`: it
/// accepts every proof that holds, refuses bytes that do not decode as a proof,
/// and refuses only with `InvalidProof`.
pub open spec fn verdict_on(commitment: Seq<u8>, proof: Seq<u8>, outcome: Result<(), RedactionError>) -> bool {
    &&& range_proof_holds(redaction_label(), proof, commitment) ==> outcome is Ok
    &&& !range_proof_decodes(proof) ==> outcome is Err
    &&& outcome matches Err(e) ==> e == RedactionError::InvalidProof
}

/// How many generators the logger's range proofs may use.
pub const REDACTION_GENS_CAPACITY: usize = 128;

/// The bit size of the range that redacted values are proved to lie in.
pub const REDACTION_BITS: usize = 64;

/// Creates and checks redacted audit values.
pub struct RedactedLogger {
    gens_capacity: usize,
}

impl RedactedLogger {
    #[verifier::type_invariant]
    spec fn capacity_suffices(&self) -> bool {
        self.gens_capacity >= REDACTION_BITS
    }

    /// How many generators the logger's range proofs use.
    pub closed spec fn gens_capacity_view(&self) -> usize {
        self.gens_capacity
    }

    /// A logger whose range proofs use 128 generators.
    pub fn new() -> (r: Self)
        ensures
            r.gens_capacity_view() == REDACTION_GENS_CAPACITY,
    {
        RedactedLogger { gens_capacity: REDACTION_GENS_CAPACITY }
    }

    /// Replaces `secret_value` by its commitment under the blinding factor
    /// `redacted_mask`, with a proof that the committed value is a `u64`.
    pub fn create_redacted_entry(&self, secret_value: u64, redacted_mask: [u8; 32]) -> (r: RedactedEntry)
        ensures
            redacted_form_of(secret_value, redacted_mask@, r.commitment@, r.proof@),
    {
        proof {
            use_type_invariant(self);
            reveal_strlit("RedactedAudit");
        }
        let (commitment, range_proof) = prove_range(
            self.gens_capacity,
            "RedactedAudit",
            REDACTION_BITS,
            secret_value,
            &redacted_mask,
        );
        RedactedEntry { commitment, proof: range_proof }
    }

    /// Checks the range proof of a redacted value.
    pub fn verify_redacted_entry(&self, commitment: &[u8; 32], range_proof: &[u8]) -> (r: Result<(), RedactionError>)
        ensures
            verdict_on(commitment@, range_proof@, r),
    {
        proof {
            use_type_invariant(self);
            reveal_strlit("RedactedAudit");
        }
        if verify_range(self.gens_capacity, "RedactedAudit", REDACTION_BITS, range_proof, commitment) {
            Ok(())
        } else {
            Err(RedactionError::InvalidProof)
        }
    }
}

/// A value that the logger redacted passes the logger's check: whatever verdict
/// it gives on the entry's commitment and proof is `Ok`.
pub proof fn lemma_created_entry_verifies(
    value: u64,
    mask: Seq<u8>,
    commitment: Seq<u8>,
    proof: Seq<u8>,
    outcome: Result<(), RedactionError>,
)
    requires
        redacted_form_of(value, mask, commitment, proof),
        verdict_on(commitment, proof, outcome),
    ensures
        outcome is Ok,
{
}

} // verus!
