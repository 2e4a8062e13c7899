use bellman::SynthesisError;
use bellman::groth16;
use bellman::{ConstraintSystem};
use bls12_381::{Bls12, Scalar};
use rabbitagent::zkp::{
    circuit_hash_of, Circuit, CircuitCache, CompiledCircuit, ParameterError, ParameterLoader, Parameters, ProofSystem,
    SynthesisErrorKind, ToxicWasteDestroyer, VerifierError, ZkError, ZkVerifier,
};
use std::collections::hash_map::DefaultHasher;
use std::hash::Hasher;

/// x * x = y, with y public.
struct Square {
    x: Option<Scalar>,
}

impl bellman::Circuit<Scalar> for Square {
    fn synthesize<CS: ConstraintSystem<Scalar>>(self, cs: &mut CS) -> Result<(), SynthesisError> {
        let x = cs.alloc(|| "x", || self.x.ok_or(SynthesisError::AssignmentMissing))?;
        let y = cs.alloc_input(|| "y", || self.x.map(|v| v * v).ok_or(SynthesisError::AssignmentMissing))?;
        cs.enforce(|| "square", |lc| lc + x, |lc| lc + x, |lc| lc + y);
        Ok(())
    }
}

/// Parameters, verifying key and a proof for x = 3, with the public input 9.
fn square_setup() -> (Vec<u8>, Vec<u8>, Vec<u8>, [u8; 32]) {
    let mut rng = rand::rngs::OsRng;
    let params = groth16::generate_random_parameters::<Bls12, _, _>(Square { x: None }, &mut rng).unwrap();
    let proof = groth16::create_random_proof(Square { x: Some(Scalar::from(3u64)) }, &params, &mut rng).unwrap();
    let mut pb = Vec::new();
    params.write(&mut pb).unwrap();
    let mut vb = Vec::new();
    params.vk.write(&mut vb).unwrap();
    let mut prb = Vec::new();
    proof.write(&mut prb).unwrap();
    (pb, vb, prb, Scalar::from(9u64).to_bytes())
}

struct NamedCircuit {
    name: Vec<u8>,
}

impl Circuit for NamedCircuit {
    fn spec_description(&self) -> vstd::seq::Seq<u8> {
        panic!("a specification, not called at run time")
    }

    fn description(&self) -> Vec<u8> {
        self.name.clone()
    }

    fn compile(&self) -> CompiledCircuit {
        let mut constraints = self.name.clone();
        constraints.reverse();
        CompiledCircuit { constraints }
    }
}

#[test]
fn circuit_handle_is_the_default_hash_of_its_description() {
    let cache = CircuitCache::new();
    let c = NamedCircuit { name: b"merkle-membership".to_vec() };
    let mut h = DefaultHasher::new();
    h.write(b"merkle-membership");
    assert_eq!(cache.calculate_circuit_hash(&c), h.finish());
    assert_eq!(circuit_hash_of(b"merkle-membership"), h.finish());
}

#[test]
fn precompiling_twice_gives_the_same_handle_and_entry() {
    let mut cache = CircuitCache::new();
    let c = NamedCircuit { name: b"abc".to_vec() };
    let h1 = cache.precompile(&c);
    assert_eq!(cache.get(h1).unwrap().constraints, b"cba".to_vec());
    let h2 = cache.precompile(&c);
    assert_eq!(h1, h2);
    assert_eq!(h1, circuit_hash_of(b"abc"));
    assert_eq!(cache.get(h1).unwrap().constraints, b"cba".to_vec());
}

#[test]
fn distinct_circuits_get_distinct_entries() {
    let mut cache = CircuitCache::new();
    let a = cache.precompile(&NamedCircuit { name: b"a".to_vec() });
    let b = cache.precompile(&NamedCircuit { name: b"b".to_vec() });
    assert_ne!(a, b);
    assert_eq!(cache.get(a).unwrap().constraints, b"a".to_vec());
    assert_eq!(cache.get(b).unwrap().constraints, b"b".to_vec());
}

#[test]
fn missing_handle_has_no_entry() {
    let cache = CircuitCache::new();
    assert!(cache.get(42).is_none());
}

#[test]
fn loaded_parameters_read_back() {
    let mut l = ParameterLoader::new();
    assert!(l.get_params(ProofSystem::Plonk).is_none());
    assert_eq!(l.load_from_bytes(ProofSystem::Plonk, vec![1, 2, 3]), Ok(()));
    assert_eq!(l.get_params(ProofSystem::Plonk).unwrap().bytes, vec![1, 2, 3]);
    assert!(l.get_params(ProofSystem::Groth16).is_none());
    assert_eq!(l.load_from_bytes(ProofSystem::Plonk, vec![4]), Ok(()));
    assert_eq!(l.get_params(ProofSystem::Plonk).unwrap().bytes, vec![4]);
}

#[test]
fn malformed_groth16_parameters_are_refused() {
    let mut l = ParameterLoader::new();
    assert_eq!(l.load_from_bytes(ProofSystem::Groth16, vec![1, 2, 3]), Err(ParameterError::InvalidParameters));
    assert!(l.get_params(ProofSystem::Groth16).is_none());
}

#[test]
fn generated_groth16_parameters_load() {
    let (params, _, _, _) = square_setup();
    let mut l = ParameterLoader::new();
    assert_eq!(l.load_from_bytes(ProofSystem::Groth16, params.clone()), Ok(()));
    assert_eq!(l.get_params(ProofSystem::Groth16).unwrap().bytes, params);
}

#[test]
fn groth16_proof_verifies_for_its_input_only() {
    let (params, vk, proof, y) = square_setup();
    let v = ZkVerifier::new(params, vk).unwrap();
    assert_eq!(v.verify_proof(&[y], &proof), Ok(true));
    let other = bls12_381::Scalar::from(10u64).to_bytes();
    assert_eq!(v.verify_proof(&[other], &proof), Ok(false));
    assert_eq!(v.verify_proof(&[y], &[0u8; 5]), Err(VerifierError::Malformed));
    assert_eq!(v.verify_proof(&[], &proof), Err(VerifierError::Malformed));
}

#[test]
fn verifier_refuses_bad_parameters() {
    assert!(matches!(ZkVerifier::new(vec![0u8; 10], vec![]), Err(VerifierError::InvalidParameters)));
}

#[test]
fn proof_system_keys_differ() {
    assert_eq!(ProofSystem::Groth16.key(), 0);
    assert_eq!(ProofSystem::Plonk.key(), 1);
}

#[test]
fn erased_parameters_are_zero() {
    let mut p = Parameters { bytes: vec![9, 8, 7] };
    ToxicWasteDestroyer::secure_erase(&mut p);
    assert_eq!(p.bytes, vec![0, 0, 0]);
}

#[test]
fn missing_assignment_is_a_constraint_violation() {
    assert_eq!(ZkError::from_kind(SynthesisErrorKind::AssignmentMissing), ZkError::ConstraintViolation);
    assert_eq!(ZkError::from_kind(SynthesisErrorKind::Unsatisfiable), ZkError::InternalError);
    assert_eq!(ZkError::from_synthesis_error(SynthesisError::AssignmentMissing), ZkError::ConstraintViolation);
    assert_eq!(ZkError::from_synthesis_error(SynthesisError::DivisionByZero), ZkError::InternalError);
}
