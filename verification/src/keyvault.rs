//! The key vault: hierarchical key derivation from a hardware-held master key,
//! sealing of stored secrets, key policies, and the vault's audit trail.
use vstd::prelude::*;
use crate::audit_log::{
    le_bytes, merkle_path, merkle_root, path_view, push_bytes, push_u64_le, root_from_path,
    AuditMerkleTree, MerkleProof, lemma_merkle_path_reaches_root,
};
use crate::crypto::{aes256gcm_encrypt, aes256gcm_open_of, aes256gcm_seal_of, hkdf_sha512, hkdf_sha512_of, keccak256, keccak256_of, thread_random_nonce};

verus! {

/// The kinds of key the hardware module generates.
#[derive(Debug, Clone, Copy, PartialEq, Eq, Structural)]
pub enum KeyType {
    AES256,
}

/// How the hardware module is to generate a key.
#[derive(Debug, Clone, Copy, PartialEq, Eq, Structural)]
pub struct KeyGenOptions {
    pub key_type: KeyType,
    pub persistent: bool,
    pub exportable: bool,
}

/// An attribute of a key object in the hardware module's generation template.
#[derive(Debug, Clone, Copy, PartialEq, Eq, Structural)]
pub enum KeyAttribute {
    /// The object is a secret key.
    SecretKeyClass,
    /// The key's algorithm.
    KeyType(KeyType),
    /// The key persists on the token.
    Token(bool),
    /// The key may be exported.
    Exportable(bool),
    /// The key's value is sensitive.
    Sensitive(bool),
    /// The key's value may be extracted.
    Extractable(bool),
}

/// The generation template for `opts`: a secret key of the chosen type, stored
/// and exportable as chosen, always sensitive and never extractable.
pub open spec fn spec_key_template(opts: KeyGenOptions) -> Seq<KeyAttribute> {
    seq![
        KeyAttribute::SecretKeyClass,
        KeyAttribute::KeyType(opts.key_type),
        KeyAttribute::Token(opts.persistent),
        KeyAttribute::Exportable(opts.exportable),
        KeyAttribute::Sensitive(true),
        KeyAttribute::Extractable(false),
    ]
}

impl KeyGenOptions {
    /// The template the hardware module generates a key from.
    pub fn key_template(&self) -> (r: Vec<KeyAttribute>)
        ensures
            r@ == spec_key_template(*self),
    {
        let mut t: Vec<KeyAttribute> = Vec::new();
        t.push(KeyAttribute::SecretKeyClass);
        t.push(KeyAttribute::KeyType(self.key_type));
        t.push(KeyAttribute::Token(self.persistent));
        t.push(KeyAttribute::Exportable(self.exportable));
        t.push(KeyAttribute::Sensitive(true));
        t.push(KeyAttribute::Extractable(false));
        assert(t@ =~= spec_key_template(*self));
        t
    }
}

/// Who must approve a decryption, and for how long a sealed key stays valid (seconds).
#[derive(Debug, Clone, Copy, PartialEq, Eq, Structural)]
pub struct KeyPolicy {
    pub decryption_approvers: u8,
    pub validity_window: u64,
}

/// A sealed secret ready to be stored in the hardware module.
pub struct SealedKey {
    pub key_id: String,
    pub nonce: [u8; 12],
    pub ciphertext: Vec<u8>,
    pub policy: KeyPolicy,
}

/// Why the vault refused an operation.
#[derive(Debug, Clone, Copy, PartialEq, Eq, Structural)]
pub enum VaultError {
    /// The cipher refused the data (more than 2^36 bytes).
    Encryption,
    /// The audit log holds as many entries as it can count.
    AuditLogFull,
    /// The immutable log refused the entry.
    AppendFailed,
}

/// Keys derived from a master key generated inside the hardware module.
pub struct HardwareBackedKeystore {
    master_key: [u8; 32],
    derivation_path: String,
}

/// The options with which the master key is generated: a persistent,
/// non-exportable AES-256 key.
pub open spec fn master_key_options() -> KeyGenOptions {
    KeyGenOptions { key_type: KeyType::AES256, persistent: true, exportable: false }
}

/// The policy attached to every sealed secret.
pub open spec fn sealing_policy() -> KeyPolicy {
    KeyPolicy { decryption_approvers: 3, validity_window: 3600 }
}

/// The BIP-44-style path under which keys are derived, `m/44'/626'/0'/0`.
pub open spec fn base_derivation_path() -> Seq<char> {
    seq!['m', '/', '4', '4', '\'', '/', '6', '2', '6', '\'', '/', '0', '\'', '/', '0']
}

/// The HKDF info for a suffix: the path, `/`, then the suffix, as UTF-8.
pub open spec fn derivation_info(path: Seq<char>, suffix: Seq<char>) -> Seq<u8> {
    vstd::utf8::encode_utf8(path) + seq![47u8] + vstd::utf8::encode_utf8(suffix)
}

/// The HKDF info of a derivation is the path, then `/`, then the whole suffix:
/// the bytes after the path and the slash decode back to the suffix. So two
/// different suffixes under one path never share an info, and never share a
/// derived key through it.
pub proof fn lemma_derivation_info_keeps_whole_suffix(path: Seq<char>, suffix: Seq<char>, other: Seq<char>)
    ensures
        derivation_info(path, suffix).take(vstd::utf8::encode_utf8(path).len() as int) == vstd::utf8::encode_utf8(path),
        derivation_info(path, suffix)[vstd::utf8::encode_utf8(path).len() as int] == 47u8,
        vstd::utf8::decode_utf8(derivation_info(path, suffix).skip(vstd::utf8::encode_utf8(path).len() as int + 1)) == suffix,
        derivation_info(path, suffix) == derivation_info(path, other) ==> suffix == other,
{
    let p = vstd::utf8::encode_utf8(path);
    let i1 = derivation_info(path, suffix);
    let i2 = derivation_info(path, other);
    assert(i1.take(p.len() as int) =~= p);
    assert(i1.skip(p.len() as int + 1) =~= vstd::utf8::encode_utf8(suffix));
    assert(i2.skip(p.len() as int + 1) =~= vstd::utf8::encode_utf8(other));
    vstd::utf8::encode_utf8_decode_utf8(suffix);
    vstd::utf8::encode_utf8_decode_utf8(other);
}

/// The options for the master key.
pub fn master_key_options_exec() -> (r: KeyGenOptions)
    ensures
        r == master_key_options(),
{
    KeyGenOptions { key_type: KeyType::AES256, persistent: true, exportable: false }
}

impl HardwareBackedKeystore {
    pub closed spec fn master(&self) -> Seq<u8> {
        self.master_key@
    }

    pub closed spec fn path(&self) -> Seq<char> {
        self.derivation_path@
    }

    /// A keystore over a master key that the hardware module generated with
    /// `master_key_options()`, deriving under `m/44'/626'/0'/0`.
    pub fn initialize(master_key: [u8; 32]) -> (r: Self)
        ensures
            r.master() == master_key@,
            r.path() == base_derivation_path(),
    {
        let path = "m/44'/626'/0'/0";
        proof {
            reveal_strlit("m/44'/626'/0'/0");
        }
        let derivation_path = path.to_owned();
        assert(derivation_path@ =~= base_derivation_path());
        HardwareBackedKeystore { master_key, derivation_path }
    }

    /// HKDF-SHA512 of the master key (no salt) with info `path/suffix`.
    pub fn derive_key(&self, path_suffix: &str) -> (r: [u8; 32])
        ensures
            r@ == hkdf_sha512_of(self.master(), derivation_info(self.path(), path_suffix@)),
            derivation_info(self.path(), path_suffix@).take(vstd::utf8::encode_utf8(self.path()).len() as int)
                == vstd::utf8::encode_utf8(self.path()),
            vstd::utf8::decode_utf8(
                derivation_info(self.path(), path_suffix@).skip(vstd::utf8::encode_utf8(self.path()).len() as int + 1),
            ) == path_suffix@,
    {
        proof {
            lemma_derivation_info_keeps_whole_suffix(self.path(), path_suffix@, path_suffix@);
        }
        let mut info: Vec<u8> = Vec::new();
        push_bytes(&mut info, self.derivation_path.as_str().as_bytes());
        info.push(47u8);
        push_bytes(&mut info, path_suffix.as_bytes());
        assert(info@ =~= derivation_info(self.path(), path_suffix@));
        hkdf_sha512(&self.master_key, info.as_slice())
    }

    /// Seals `data` under the key derived for `key_id`, with the given nonce and
    /// the vault's sealing policy.
    pub fn secure_store_with_nonce(&self, key_id: &str, nonce: &[u8; 12], data: &[u8]) -> (r: Result<SealedKey, VaultError>)
        ensures
            r is Ok <==> data@.len() <= 0x10_0000_0000,
            r matches Ok(s) ==> {
                &&& s.key_id@ == key_id@
                &&& s.nonce == *nonce
                &&& s.policy == sealing_policy()
                &&& s.ciphertext@ == aes256gcm_seal_of(
                    hkdf_sha512_of(self.master(), derivation_info(self.path(), key_id@)),
                    nonce@,
                    data@,
                )
                &&& aes256gcm_open_of(
                    hkdf_sha512_of(self.master(), derivation_info(self.path(), key_id@)),
                    nonce@,
                    s.ciphertext@,
                ) == Some(data@)
            },
    {
        let enc_key = self.derive_key(key_id);
        match aes256gcm_encrypt(&enc_key, nonce, data) {
            Ok(ciphertext) => Ok(SealedKey {
                key_id: key_id.to_owned(),
                nonce: *nonce,
                ciphertext,
                policy: KeyPolicy { decryption_approvers: 3, validity_window: 3600 },
            }),
            Err(_) => Err(VaultError::Encryption),
        }
    }

    /// Seals `data` under the key derived for `key_id` with a fresh random nonce.
    pub fn secure_store(&self, key_id: &str, data: &[u8]) -> (r: Result<SealedKey, VaultError>)
        ensures
            r is Ok <==> data@.len() <= 0x10_0000_0000,
            r matches Ok(s) ==> {
                &&& s.key_id@ == key_id@
                &&& s.policy == sealing_policy()
                &&& s.ciphertext@ == aes256gcm_seal_of(
                    hkdf_sha512_of(self.master(), derivation_info(self.path(), key_id@)),
                    s.nonce@,
                    data@,
                )
                &&& aes256gcm_open_of(
                    hkdf_sha512_of(self.master(), derivation_info(self.path(), key_id@)),
                    s.nonce@,
                    s.ciphertext@,
                ) == Some(data@)
            },
    {
        let nonce = thread_random_nonce();
        self.secure_store_with_nonce(key_id, &nonce, data)
    }
}

/// The vault operations that are audited.
#[derive(Debug, Clone, Copy, PartialEq, Eq, Structural)]
pub enum AuditEvent {
    KeyGenerated,
    KeyDerived,
    SecretStored,
    KeyRotated,
    SecretRecovered,
}

/// One entry of the vault's audit trail, with its proof of inclusion in the log.
pub struct VaultAuditEntry {
    pub timestamp: u64,
    pub event: AuditEvent,
    pub principal: String,
    pub device_fingerprint: [u8; 32],
    pub blockchain_proof: MerkleProof,
}

/// Records vault operations for one principal in a Merkle-tree log.
pub struct Auditor {
    principal: String,
    tree: AuditMerkleTree,
}

/// The byte that stands for an event in an entry's encoding.
pub open spec fn event_code(e: AuditEvent) -> u8 {
    match e {
        AuditEvent::KeyGenerated => 0,
        AuditEvent::KeyDerived => 1,
        AuditEvent::SecretStored => 2,
        AuditEvent::KeyRotated => 3,
        AuditEvent::SecretRecovered => 4,
    }
}

/// The encoding of an entry's contents: time, event, length-prefixed principal,
/// device fingerprint.
pub open spec fn vault_entry_bytes(timestamp: u64, event: AuditEvent, principal: Seq<char>, fingerprint: Seq<u8>) -> Seq<u8> {
    let p = vstd::utf8::encode_utf8(principal);
    le_bytes(timestamp) + seq![event_code(event)] + le_bytes(p.len() as u64) + p + fingerprint
}

fn event_code_exec(e: AuditEvent) -> (r: u8)
    ensures
        r == event_code(e),
{
    match e {
        AuditEvent::KeyGenerated => 0,
        AuditEvent::KeyDerived => 1,
        AuditEvent::SecretStored => 2,
        AuditEvent::KeyRotated => 3,
        AuditEvent::SecretRecovered => 4,
    }
}

impl Auditor {
    pub closed spec fn wf(&self) -> bool {
        self.tree.wf()
    }

    pub closed spec fn principal_view(&self) -> Seq<char> {
        self.principal@
    }

    /// The leaves of the audit log, oldest first.
    pub closed spec fn log(&self) -> Seq<Seq<u8>> {
        self.tree.leaves_view()
    }

    /// An auditor for `principal` with an empty log.
    pub fn new(principal: String) -> (r: Self)
        ensures
            r.wf(),
            r.principal_view() == principal@,
            r.log() == Seq::<Seq<u8>>::empty(),
    {
        Auditor { principal, tree: AuditMerkleTree::new() }
    }

    /// Appends `leaf` to the log and returns its inclusion proof.
    pub fn generate_merkle_proof(&mut self, leaf: [u8; 32]) -> (r: Result<MerkleProof, VaultError>)
        requires
            old(self).wf(),
        ensures
            final(self).wf(),
            final(self).principal_view() == old(self).principal_view(),
            r is Err <==> old(self).log().len() >= u64::MAX,
            r is Err ==> final(self).log() == old(self).log(),
            r matches Err(e) ==> e == VaultError::AuditLogFull,
            r matches Ok(p) ==> {
                &&& final(self).log() == old(self).log().push(leaf@)
                &&& p.index == old(self).log().len()
                &&& p.root@ == merkle_root(final(self).log())
                &&& path_view(p.path@) == merkle_path(final(self).log(), p.index as int)
                &&& root_from_path(leaf@, path_view(p.path@)) == p.root@
            },
    {
        let n = self.tree.leaf_count();
        if n == u64::MAX {
            return Err(VaultError::AuditLogFull);
        }
        self.tree.append_leaf(leaf);
        let inclusion = self.tree.generate_inclusion_proof(n);
        match inclusion {
            Some(p) => {
                proof {
                    lemma_merkle_path_reaches_root(self.log(), n as int);
                }
                Ok(p)
            },
            None => Err(VaultError::AuditLogFull),
        }
    }

    /// Records `event` at `timestamp` from the device with `device_fingerprint`:
    /// the entry's hash joins the log, and the entry carries its inclusion proof.
    pub fn log_operation(&mut self, event: AuditEvent, timestamp: u64, device_fingerprint: [u8; 32]) -> (r: Result<VaultAuditEntry, VaultError>)
        requires
            old(self).wf(),
        ensures
            final(self).wf(),
            final(self).principal_view() == old(self).principal_view(),
            r is Err <==> old(self).log().len() >= u64::MAX,
            r is Err ==> final(self).log() == old(self).log(),
            r matches Err(e) ==> e == VaultError::AuditLogFull,
            r matches Ok(e) ==> {
                let leaf = keccak256_of(vault_entry_bytes(timestamp, event, old(self).principal_view(), device_fingerprint@));
                &&& e.timestamp == timestamp
                &&& e.event == event
                &&& e.principal@ == old(self).principal_view()
                &&& e.device_fingerprint == device_fingerprint
                &&& final(self).log() == old(self).log().push(leaf)
                &&& e.blockchain_proof.index == old(self).log().len()
                &&& e.blockchain_proof.root@ == merkle_root(final(self).log())
                &&& root_from_path(leaf, path_view(e.blockchain_proof.path@)) == e.blockchain_proof.root@
            },
    {
        let mut bytes: Vec<u8> = Vec::new();
        push_u64_le(&mut bytes, timestamp);
        bytes.push(event_code_exec(event));
        let pb = self.principal.as_str().as_bytes();
        push_u64_le(&mut bytes, pb.len() as u64);
        push_bytes(&mut bytes, pb);
        push_bytes(&mut bytes, &device_fingerprint);
        assert(bytes@ =~= vault_entry_bytes(timestamp, event, self.principal_view(), device_fingerprint@));
        let leaf = keccak256(bytes.as_slice());
        let inclusion = self.generate_merkle_proof(leaf)?;
        Ok(VaultAuditEntry {
            timestamp,
            event,
            principal: self.principal.clone(),
            device_fingerprint,
            blockchain_proof: inclusion,
        })
    }
}

/// What follows an entry's append to the immutable log.
pub enum PostAction {
    /// The append succeeded: post the entry to the chain.
    PostToChain(VaultAuditEntry),
    /// The append failed: post nothing and report the append's error.
    Abort(VaultError),
}

/// An entry is posted to the chain only after its append succeeded; a failed
/// append posts nothing and fails with the append's own error.
pub open spec fn spec_post_decision(entry: VaultAuditEntry, appended: Result<(), VaultError>, action: PostAction) -> bool {
    match appended {
        Ok(()) => action matches PostAction::PostToChain(e) && e == entry,
        Err(err) => action matches PostAction::Abort(a) && a == err,
    }
}

impl Auditor {
    /// Decides, once the append of `entry` to the immutable log has returned,
    /// whether the entry goes to the chain.
    pub fn post_decision(entry: VaultAuditEntry, appended: Result<(), VaultError>) -> (r: PostAction)
        ensures
            spec_post_decision(entry, appended, r),
    {
        match appended {
            Ok(()) => PostAction::PostToChain(entry),
            Err(err) => PostAction::Abort(err),
        }
    }
}

} // verus!
