//! Zero-knowledge proving support: the proof systems and their parameters, the
//! cache of compiled circuits, the erasure of setup secrets, and the mapping of
//! the prover's synthesis errors.
use vstd::prelude::*;
use bellman::groth16;
use bellman::{SynthesisError, VerificationError};
use bls12_381::Bls12;
use std::collections::hash_map::DefaultHasher;
use std::collections::HashMap;
use std::hash::Hasher;
use std::sync::Arc;

verus! {

use vstd::std_specs::hash::DefaultHasherAdditionalSpecFns;

broadcast use vstd::std_specs::hash::group_hash_axioms;

/// The proof systems whose parameters the node keeps.
#[derive(Debug, Clone, Copy, PartialEq, Eq, Structural)]
pub enum ProofSystem {
    Groth16,
    Plonk,
}

impl ProofSystem {
    /// The key under which a system's parameters are stored.
    pub open spec fn spec_key(self) -> u64 {
        match self {
            ProofSystem::Groth16 => 0,
            ProofSystem::Plonk => 1,
        }
    }

    pub fn key(self) -> (r: u64)
        ensures
            r == self.spec_key(),
    {
        match self {
            ProofSystem::Groth16 => 0,
            ProofSystem::Plonk => 1,
        }
    }
}

/// A proof system's public parameters, as serialised.
pub struct Parameters {
    pub bytes: Vec<u8>,
}

/// A proof, as serialised.
pub struct Proof {
    pub bytes: Vec<u8>,
}

/// A verifying key, as serialised.
pub struct VerifyingKey {
    pub bytes: Vec<u8>,
}

/// A circuit compiled to its constraint system, as serialised.
pub struct CompiledCircuit {
    pub constraints: Vec<u8>,
}

/// The handle under which a compiled circuit is cached.
pub type CircuitHandle = u64;

/// Why proving or verifying failed.
#[derive(Debug, Clone, Copy, PartialEq, Eq, Structural)]
pub enum ZkError {
    /// A variable had no assignment: the witness does not fit the circuit.
    ConstraintViolation,
    /// Anything else went wrong inside the prover.
    InternalError,
}

/// The prover's synthesis errors, variant by variant.
#[derive(Debug, Clone, Copy, PartialEq, Eq, Structural)]
pub enum SynthesisErrorKind {
    AssignmentMissing,
    DivisionByZero,
    Unsatisfiable,
    PolynomialDegreeTooLarge,
    UnexpectedIdentity,
    IoError,
    UnconstrainedVariable,
}

/// The standard library's I/O error, carried by one synthesis error variant.
#[verifier::external_type_specification]
#[verifier::external_body]
pub struct ExIoError(std::io::Error);

/// bellman's synthesis error, with its variants visible.
#[verifier::external_type_specification]
pub struct ExSynthesisError(SynthesisError);

/// The variant of a synthesis error.
pub open spec fn synthesis_error_kind_of(e: SynthesisError) -> SynthesisErrorKind {
    match e {
        SynthesisError::AssignmentMissing => SynthesisErrorKind::AssignmentMissing,
        SynthesisError::DivisionByZero => SynthesisErrorKind::DivisionByZero,
        SynthesisError::Unsatisfiable => SynthesisErrorKind::Unsatisfiable,
        SynthesisError::PolynomialDegreeTooLarge => SynthesisErrorKind::PolynomialDegreeTooLarge,
        SynthesisError::UnexpectedIdentity => SynthesisErrorKind::UnexpectedIdentity,
        SynthesisError::IoError(_) => SynthesisErrorKind::IoError,
        SynthesisError::UnconstrainedVariable => SynthesisErrorKind::UnconstrainedVariable,
    }
}

/// A missing assignment is a constraint violation; every other synthesis
/// failure is internal.
pub open spec fn spec_zk_error_of(kind: SynthesisErrorKind) -> ZkError {
    match kind {
        SynthesisErrorKind::AssignmentMissing => ZkError::ConstraintViolation,
        _ => ZkError::InternalError,
    }
}

impl ZkError {
    pub fn from_kind(kind: SynthesisErrorKind) -> (r: ZkError)
        ensures
            r == spec_zk_error_of(kind),
    {
        match kind {
            SynthesisErrorKind::AssignmentMissing => ZkError::ConstraintViolation,
            _ => ZkError::InternalError,
        }
    }

    /// The error for a failure of bellman's circuit synthesis.
    pub fn from_synthesis_error(e: SynthesisError) -> (r: ZkError)
        ensures
            r == spec_zk_error_of(synthesis_error_kind_of(e)),
    {
        let kind = match e {
            SynthesisError::AssignmentMissing => SynthesisErrorKind::AssignmentMissing,
            SynthesisError::DivisionByZero => SynthesisErrorKind::DivisionByZero,
            SynthesisError::Unsatisfiable => SynthesisErrorKind::Unsatisfiable,
            SynthesisError::PolynomialDegreeTooLarge => SynthesisErrorKind::PolynomialDegreeTooLarge,
            SynthesisError::UnexpectedIdentity => SynthesisErrorKind::UnexpectedIdentity,
            SynthesisError::IoError(_) => SynthesisErrorKind::IoError,
            SynthesisError::UnconstrainedVariable => SynthesisErrorKind::UnconstrainedVariable,
        };
        ZkError::from_kind(kind)
    }
}

/// A circuit that can be compiled to a constraint system. Its description is
/// what identifies it in the cache.
pub trait Circuit {
    /// The circuit's description, as its implementor defines it.
    spec fn spec_description(&self) -> Seq<u8>;

    fn description(&self) -> (d: Vec<u8>)
        ensures
            d@ == self.spec_description(),
    ;

    fn compile(&self) -> CompiledCircuit;
}

/// A proof system able to set up, prove and verify circuits.
pub trait ProofSystemBackend {
    fn setup<C: Circuit>(&self, circuit: &C) -> Result<Parameters, ZkError>;

    fn prove<C: Circuit>(&self, params: &Parameters, circuit: &C) -> Result<Proof, ZkError>;

    fn verify(&self, vk: &VerifyingKey, proof: &Proof, inputs: &[[u8; 32]]) -> Result<bool, ZkError>;
}

/// Groth16 over BLS12-381.
pub struct Groth16Backend;

/// PLONK.
pub struct PlonkBackend;

/// Halo2.
pub struct Halo2Backend;

/// The handle of a circuit with the given description: the standard library's
/// default hasher after one write of the description.
pub open spec fn spec_circuit_hash(description: Seq<u8>) -> u64 {
    DefaultHasher::spec_finish(seq![description])
}

/// Compiled circuits, by handle.
pub struct CircuitCache {
    cache: HashMap<u64, CompiledCircuit>,
}

impl View for CircuitCache {
    type V = Map<u64, CompiledCircuit>;

    closed spec fn view(&self) -> Map<u64, CompiledCircuit> {
        self.cache@
    }
}

/// `after` is the cache `before` once a circuit with handle `handle` was
/// precompiled: a cached circuit is left as it was, and a new one is added.
pub open spec fn precompiled(
    before: Map<u64, CompiledCircuit>,
    handle: u64,
    after: Map<u64, CompiledCircuit>,
) -> bool {
    &&& before.contains_key(handle) ==> after == before
    &&& !before.contains_key(handle) ==> exists|c: CompiledCircuit| after == before.insert(handle, c)
}

/// The handle of a circuit with the given description.
pub fn circuit_hash_of(description: &[u8]) -> (h: CircuitHandle)
    ensures
        h == spec_circuit_hash(description@),
{
    let mut hasher = DefaultHasher::new();
    hasher.write(description);
    let h = hasher.finish();
    assert(seq![description@] =~= Seq::<Seq<u8>>::empty().push(description@));
    h
}

impl CircuitCache {
    pub fn new() -> (r: Self)
        ensures
            r@ == Map::<u64, CompiledCircuit>::empty(),
    {
        CircuitCache { cache: HashMap::new() }
    }

    /// The handle of a circuit: the hash of the description it gives.
    pub fn calculate_circuit_hash<C: Circuit>(&self, circuit: &C) -> (h: CircuitHandle)
        ensures
            h == spec_circuit_hash(circuit.spec_description()),
    {
        let description = circuit.description();
        circuit_hash_of(description.as_slice())
    }

    /// Compiles the circuit unless a circuit with its handle is cached, and
    /// returns the handle.
    pub fn precompile<C: Circuit>(&mut self, circuit: &C) -> (h: CircuitHandle)
        ensures
            h == spec_circuit_hash(circuit.spec_description()),
            precompiled(old(self)@, h, final(self)@),
            !old(self)@.contains_key(h) ==> exists|c: CompiledCircuit|
                call_ensures(C::compile, (circuit,), c) && final(self)@ == #[trigger] old(self)@.insert(h, c),
    {
        let key = self.calculate_circuit_hash(circuit);
        if !self.cache.contains_key(&key) {
            let compiled = circuit.compile();
            self.cache.insert(key, compiled);
        }
        key
    }

    /// The compiled circuit cached under `handle`, if any.
    pub fn get(&self, handle: CircuitHandle) -> (r: Option<&CompiledCircuit>)
        ensures
            match r {
                Some(c) => self@.contains_key(handle) && *c == self@[handle],
                None => !self@.contains_key(handle),
            },
    {
        self.cache.get(&handle)
    }
}

/// A handle that precompilation returned is cached afterwards, and precompiling
/// again under that handle leaves the cache as it was.
pub proof fn lemma_precompile_idempotent(
    m0: Map<u64, CompiledCircuit>,
    h: u64,
    m1: Map<u64, CompiledCircuit>,
    m2: Map<u64, CompiledCircuit>,
)
    requires
        precompiled(m0, h, m1),
        precompiled(m1, h, m2),
    ensures
        m1.contains_key(h),
        m2 == m1,
{
    if !m0.contains_key(h) {
        let c = choose|c: CompiledCircuit| m1 == m0.insert(h, c);
        assert(m1.contains_key(h));
    }
}

/// Why parameters were refused.
#[derive(Debug, Clone, Copy, PartialEq, Eq, Structural)]
pub enum ParameterError {
    /// The bytes are not a valid parameter set for the proof system.
    InvalidParameters,
}

/// `groth16::Parameters::<Bls12>::read(bytes, true)` of bellman succeeds: the
/// bytes hold a Groth16 parameter set over BLS12-381 whose points decode and
/// lie in their groups.
pub uninterp spec fn groth16_params_parse(bytes: Seq<u8>) -> bool;

/// Whether the bytes parse as checked Groth16 parameters over BLS12-381.
#[verifier::external_body]
fn groth16_params_valid(bytes: &[u8]) -> (r: bool)
    ensures
        r == groth16_params_parse(bytes@),
{
    groth16::Parameters::<Bls12>::read(bytes, true).is_ok()
}

/// What bellman's Groth16 verification over BLS12-381 gives for a verifying
/// key, a proof (both in bellman's encodings) and public inputs (canonical
/// little-endian scalars): `Some(true)` if the proof verifies, `Some(false)` if
/// it does not, `None` if the key, the proof or an input does not decode or the
/// number of inputs does not fit the key.
pub uninterp spec fn groth16_verify_of(vk: Seq<u8>, proof: Seq<u8>, inputs: Seq<[u8; 32]>) -> Option<bool>;

/// `VerifyingKey::read`, `Proof::read`, `Scalar::from_bytes` for each input,
/// `prepare_verifying_key` and `verify_proof` of bellman over BLS12-381.
#[verifier::external_body]
fn groth16_verify(vk: &[u8], proof: &[u8], inputs: &[[u8; 32]]) -> (r: Option<bool>)
    ensures
        r == groth16_verify_of(vk@, proof@, inputs@),
{
    let vk = groth16::VerifyingKey::<Bls12>::read(vk).ok()?;
    let proof = groth16::Proof::<Bls12>::read(proof).ok()?;
    let scalars: Option<Vec<bls12_381::Scalar>> =
        inputs.iter().map(|b| Option::from(bls12_381::Scalar::from_bytes(b))).collect();
    let pvk = groth16::prepare_verifying_key(&vk);
    match groth16::verify_proof(&pvk, &proof, &scalars?) {
        Ok(()) => Some(true),
        Err(VerificationError::InvalidProof) => Some(false),
        Err(VerificationError::InvalidVerifyingKey) => None,
    }
}

/// Why a proof could not be checked.
#[derive(Debug, Clone, Copy, PartialEq, Eq, Structural)]
pub enum VerifierError {
    /// The parameters are not a valid Groth16 parameter set.
    InvalidParameters,
    /// The verifying key, the proof or an input is malformed, or the inputs do
    /// not fit the key.
    Malformed,
}

/// Checks Groth16 proofs of state transitions against a verifying key.
pub struct ZkVerifier {
    params: Vec<u8>,
    verifying_key: Vec<u8>,
}

impl ZkVerifier {
    pub closed spec fn verifying_key_view(&self) -> Seq<u8> {
        self.verifying_key@
    }

    pub closed spec fn params_view(&self) -> Seq<u8> {
        self.params@
    }

    /// A verifier over the given parameter set and verifying key, both read
    /// from their files; the parameters must parse.
    pub fn new(params: Vec<u8>, verifying_key: Vec<u8>) -> (r: Result<Self, VerifierError>)
        ensures
            r is Ok <==> groth16_params_parse(params@),
            r matches Ok(v) ==> v.verifying_key_view() == verifying_key@ && v.params_view() == params@,
            r matches Err(e) ==> e == VerifierError::InvalidParameters,
    {
        if !groth16_params_valid(params.as_slice()) {
            return Err(VerifierError::InvalidParameters);
        }
        Ok(ZkVerifier { params, verifying_key })
    }

    /// Whether `proof` verifies for `public_inputs`.
    pub fn verify_proof(&self, public_inputs: &[[u8; 32]], proof: &[u8]) -> (r: Result<bool, VerifierError>)
        ensures
            match groth16_verify_of(self.verifying_key_view(), proof@, public_inputs@) {
                Some(b) => r == Ok::<bool, VerifierError>(b),
                None => r == Err::<bool, VerifierError>(VerifierError::Malformed),
            },
    {
        match groth16_verify(self.verifying_key.as_slice(), proof, public_inputs) {
            Some(b) => Ok(b),
            None => Err(VerifierError::Malformed),
        }
    }
}

/// `Arc::clone`: another pointer to the same value.
#[verifier::external_body]
fn share<T>(a: &Arc<T>) -> (r: Arc<T>)
    ensures
        r == *a,
{
    Arc::clone(a)
}

/// The parameters of each proof system, once loaded.
pub struct ParameterLoader {
    params_map: HashMap<u64, Arc<Parameters>>,
}

impl ParameterLoader {
    /// The loaded parameters, by proof system key.
    pub closed spec fn params(&self) -> Map<u64, Arc<Parameters>> {
        self.params_map@
    }

    pub fn new() -> (r: Self)
        ensures
            r.params() == Map::<u64, Arc<Parameters>>::empty(),
    {
        ParameterLoader { params_map: HashMap::new() }
    }

    /// Stores the parameters of `system`, read from its parameter file,
    /// replacing any loaded before. Groth16 parameters must parse as a checked
    /// BLS12-381 parameter set; otherwise nothing changes.
    pub fn load_from_bytes(&mut self, system: ProofSystem, bytes: Vec<u8>) -> (r: Result<(), ParameterError>)
        ensures
            r is Err <==> system == ProofSystem::Groth16 && !groth16_params_parse(bytes@),
            r matches Err(e) ==> e == ParameterError::InvalidParameters,
            r is Err ==> final(self).params() == old(self).params(),
            r is Ok ==> {
                &&& final(self).params().dom() == old(self).params().dom().insert(system.spec_key())
                &&& final(self).params()[system.spec_key()].bytes@ == bytes@
                &&& forall|k: u64| k != system.spec_key() && old(self).params().contains_key(k)
                    ==> final(self).params()[k] == old(self).params()[k]
            },
    {
        match system {
            ProofSystem::Groth16 => {
                if !groth16_params_valid(bytes.as_slice()) {
                    return Err(ParameterError::InvalidParameters);
                }
            },
            ProofSystem::Plonk => {},
        }
        let params = Arc::new(Parameters { bytes });
        self.params_map.insert(system.key(), params);
        Ok(())
    }

    /// The parameters loaded for `system`, if any.
    pub fn get_params(&self, system: ProofSystem) -> (r: Option<Arc<Parameters>>)
        ensures
            match r {
                Some(p) => self.params().contains_key(system.spec_key()) && p == self.params()[system.spec_key()],
                None => !self.params().contains_key(system.spec_key()),
            },
    {
        match self.params_map.get(&system.key()) {
            Some(p) => Some(share(p)),
            None => None,
        }
    }
}

/// Loading parameters and then reading them back gives the loaded bytes, and
/// leaves the other system's parameters as they were.
pub proof fn lemma_load_then_get(
    before: Map<u64, Arc<Parameters>>,
    after: Map<u64, Arc<Parameters>>,
    system: ProofSystem,
    other: ProofSystem,
    bytes: Seq<u8>,
)
    requires
        after.dom() == before.dom().insert(system.spec_key()),
        after[system.spec_key()].bytes@ == bytes,
        forall|k: u64| k != system.spec_key() && before.contains_key(k) ==> after[k] == before[k],
    ensures
        after.contains_key(system.spec_key()),
        after[system.spec_key()].bytes@ == bytes,
        other != system ==> (after.contains_key(other.spec_key()) == before.contains_key(other.spec_key())),
        other != system && before.contains_key(other.spec_key()) ==> after[other.spec_key()] == before[other.spec_key()],
{
}

/// Wipes the secrets left over from a trusted setup.
pub struct ToxicWasteDestroyer;

impl ToxicWasteDestroyer {
    /// Overwrites every byte of the parameters with zero, keeping their length.
    pub fn secure_erase(params: &mut Parameters)
        ensures
            final(params).bytes@.len() == old(params).bytes@.len(),
            forall|i: int| 0 <= i < final(params).bytes@.len() ==> final(params).bytes@[i] == 0u8,
    {
        let n = params.bytes.len();
        let mut i: usize = 0;
        while i < n
            invariant
                i <= n,
                n == old(params).bytes@.len(),
                params.bytes@.len() == n,
                forall|j: int| 0 <= j < i ==> params.bytes@[j] == 0u8,
            decreases n - i,
        {
            params.bytes[i] = 0u8;
            i = i + 1;
        }
    }
}

} // verus!
