//! Ed25519 signatures over audit entries, bound to the audit context.
use vstd::prelude::*;
use crate::audit_log::{flatten_hashes, lemma_flatten_hashes_injective, lemma_flatten_hashes_layout, push_bytes, AuditEntry};
use crate::crypto::{
    ed25519_accepts, ed25519_public_key, ed25519_public_key_of, ed25519_sign, ed25519_signature_of,
    ed25519_verify,
};

verus! {

/// Signs and checks audit entries with one Ed25519 key.
pub struct AuditSigner {
    pub secret_key: [u8; 32],
}

/// Why an entry's signature is not accepted.
#[derive(Debug, Clone, Copy, PartialEq, Eq, Structural)]
pub enum SignatureError {
    /// The stored signature is not 64 bytes long.
    MalformedSignature,
    /// The signature does not verify under the signer's public key.
    VerificationFailed,
}

/// The signing context, `b"RabbitAgentAudit"`.
pub open spec fn audit_context() -> Seq<u8> {
    seq![82u8, 97, 98, 98, 105, 116, 65, 103, 101, 110, 116, 65, 117, 100, 105, 116]
}

/// The message signed for an entry: the context, the data hash, then the parties.
pub open spec fn audit_message(e: AuditEntry) -> Seq<u8> {
    audit_context() + e.data_hash@ + flatten_hashes(e.parties@)
}

/// The signed message binds the entry's data hash and every one of its
/// parties: entries with the same message have the same data hash and the same
/// parties, so changing any party (or adding or removing one) changes what is
/// signed.
pub proof fn lemma_audit_message_binds_entry(e1: AuditEntry, e2: AuditEntry)
    requires
        audit_message(e1) == audit_message(e2),
    ensures
        e1.data_hash@ == e2.data_hash@,
        e1.parties@.len() == e2.parties@.len(),
        forall|i: int| 0 <= i < e1.parties@.len() ==> (#[trigger] e1.parties@[i])@ == e2.parties@[i]@,
{
    let m1 = audit_message(e1);
    let m2 = audit_message(e2);
    let c = audit_context();
    lemma_flatten_hashes_layout(e1.parties@);
    lemma_flatten_hashes_layout(e2.parties@);
    assert(m1.subrange(16, 48) =~= e1.data_hash@);
    assert(m2.subrange(16, 48) =~= e2.data_hash@);
    assert(m1.skip(48) =~= flatten_hashes(e1.parties@));
    assert(m2.skip(48) =~= flatten_hashes(e2.parties@));
    lemma_flatten_hashes_injective(e1.parties@, e2.parties@);
}

/// The signed message is the 16 bytes of the context, then the 32 bytes of the
/// data hash, then each party's 32 bytes in order, every party included.
pub proof fn lemma_audit_message_layout(e: AuditEntry)
    ensures
        audit_message(e).len() == 48 + 32 * e.parties@.len(),
        audit_message(e).subrange(0, 16) == audit_context(),
        audit_message(e).subrange(16, 48) == e.data_hash@,
        forall|i: int|
            0 <= i < e.parties@.len() ==> #[trigger] audit_message(e).subrange(48 + 32 * i, 80 + 32 * i)
                == e.parties@[i]@,
{
    let m = audit_message(e);
    lemma_flatten_hashes_layout(e.parties@);
    assert(m.subrange(0, 16) =~= audit_context());
    assert(m.subrange(16, 48) =~= e.data_hash@);
    assert forall|i: int| 0 <= i < e.parties@.len() implies #[trigger] m.subrange(48 + 32 * i, 80 + 32 * i)
        == e.parties@[i]@ by {
        assert forall|j: int| 0 <= j < 32 implies m.subrange(48 + 32 * i, 80 + 32 * i)[j] == e.parties@[i]@[j] by {
            assert(m[48 + 32 * i + j] == flatten_hashes(e.parties@)[32 * i + j]);
        }
        assert(m.subrange(48 + 32 * i, 80 + 32 * i) =~= e.parties@[i]@);
    }
}

/// What verifying an entry under `secret`'s public key gives, for an entry that
/// carries a signature.
pub open spec fn spec_verify_entry(secret: Seq<u8>, e: AuditEntry) -> Result<(), SignatureError> {
    let sig = e.zk_proof.unwrap()@;
    if sig.len() != 64 {
        Err(SignatureError::MalformedSignature)
    } else if ed25519_accepts(ed25519_public_key_of(secret), audit_message(e), sig) {
        Ok(())
    } else {
        Err(SignatureError::VerificationFailed)
    }
}

/// Builds the message signed for an entry.
fn audit_message_bytes(entry: &AuditEntry) -> (r: Vec<u8>)
    ensures
        r@ == audit_message(*entry),
        r@.len() == 48 + 32 * entry.parties@.len(),
        r@.subrange(16, 48) == entry.data_hash@,
        forall|i: int|
            0 <= i < entry.parties@.len() ==> #[trigger] r@.subrange(48 + 32 * i, 80 + 32 * i) == entry.parties@[i]@,
{
    proof {
        lemma_audit_message_layout(*entry);
    }
    let context: [u8; 16] = [82, 97, 98, 98, 105, 116, 65, 103, 101, 110, 116, 65, 117, 100, 105, 116];
    let mut msg: Vec<u8> = Vec::new();
    push_bytes(&mut msg, &context);
    assert(context@ =~= audit_context());
    push_bytes(&mut msg, &entry.data_hash);
    let ghost before = msg@;
    let mut i: usize = 0;
    while i < entry.parties.len()
        invariant
            i <= entry.parties@.len(),
            msg@ == before + flatten_hashes(entry.parties@.subrange(0, i as int)),
        decreases entry.parties@.len() - i,
    {
        push_bytes(&mut msg, &entry.parties[i]);
        assert(entry.parties@.subrange(0, i + 1).drop_last() =~= entry.parties@.subrange(0, i as int));
        assert(msg@ =~= before + flatten_hashes(entry.parties@.subrange(0, i + 1)));
        i = i + 1;
    }
    assert(entry.parties@.subrange(0, entry.parties@.len() as int) =~= entry.parties@);
    assert(msg@ =~= audit_message(*entry));
    msg
}

/// Copies a 64-byte slice into an array.
fn to_array64(s: &[u8]) -> (r: [u8; 64])
    requires
        s@.len() == 64,
    ensures
        r@ == s@,
{
    let mut r = [0u8; 64];
    let mut i: usize = 0;
    while i < 64
        invariant
            i <= 64,
            s@.len() == 64,
            r@.len() == 64,
            forall|j: int| 0 <= j < i ==> r@[j] == s@[j],
        decreases 64 - i,
    {
        r[i] = s[i];
        i = i + 1;
    }
    assert(r@ =~= s@);
    r
}

impl AuditSigner {
    /// Signs the entry's data hash and parties, storing the signature in the entry.
    /// The stored signature then verifies.
    pub fn sign_entry(&self, entry: &mut AuditEntry)
        ensures
            final(entry).timestamp == old(entry).timestamp,
            final(entry).action_type == old(entry).action_type,
            final(entry).data_hash == old(entry).data_hash,
            final(entry).parties@ == old(entry).parties@,
            final(entry).zk_proof is Some,
            final(entry).zk_proof.unwrap()@ == ed25519_signature_of(
                self.secret_key@,
                audit_message(*old(entry)),
            ),
            spec_verify_entry(self.secret_key@, *final(entry)) == Ok::<(), SignatureError>(()),
    {
        let msg = audit_message_bytes(entry);
        let sig = ed25519_sign(&self.secret_key, msg.as_slice());
        let mut sig_bytes: Vec<u8> = Vec::new();
        push_bytes(&mut sig_bytes, &sig);
        assert(sig_bytes@ =~= sig@);
        entry.zk_proof = Some(sig_bytes);
        assert(audit_message(*entry) == audit_message(*old(entry)));
    }

    /// Checks the entry's stored signature under this signer's public key.
    pub fn verify_entry(&self, entry: &AuditEntry) -> (r: Result<(), SignatureError>)
        requires
            entry.zk_proof is Some,
        ensures
            r == spec_verify_entry(self.secret_key@, *entry),
    {
        let sig = match &entry.zk_proof {
            Some(s) => s,
            None => {
                return Err(SignatureError::MalformedSignature);
            },
        };
        if sig.len() != 64 {
            return Err(SignatureError::MalformedSignature);
        }
        let sig_arr = to_array64(sig.as_slice());
        let public = ed25519_public_key(&self.secret_key);
        let msg = audit_message_bytes(entry);
        if ed25519_verify(&public, msg.as_slice(), &sig_arr) {
            Ok(())
        } else {
            Err(SignatureError::VerificationFailed)
        }
    }
}

} // verus!
