# rabbitagent

The verified core of a privacy-preserving AI verification network: secret
sharing for key recovery, the Merkle audit log and its signatures, the key
vault, chunked and erasure-coded encrypted storage, signed latency reports,
cross-chain proof messages, the trusted-execution bridge, Groth16 parameter
handling and proof checks, redactable audit values, key rotation, and the
recovery decisions of the inference engine and enclave watchdog.

- `src/` is the library, written in Verus. Every public function states its
  behaviour in a contract that Verus proves; private helpers carry contracts
  where their callers need them. Calls into cryptographic crates sit behind
  small trusted wrappers whose contracts state what those crates document.
- `tests/` exercises the library against the same crates directly.
- `app/` is the gateway process and the parts that need I/O, floating point,
  devices or async runtimes: it reads requests, talks to the HSM, samples
  device resources, runs the recovery and rotation loops and drives the
  Groth16 prover.

## What is not here

Enclave creation (`EnclaveBridge::init`), sealing data to an enclave
(`seal_payload`) and producing a remote-attestation quote
(`generate_attestation`) are calls into the Intel SGX SDK through FFI
(`sgx_urts`, `sgx_types`, `sgx_create_report`, `sgx_get_quote`,
`sgx_seal_data_ex`). That SDK and its Rust bindings are not available to this
build, so these functions are not part of the crate. What they decide is here:
the status test of an enclave call (`tee::check_ecall_status`), the verdict on
a checked quote (`RemoteAttestationVerifier::report_verdict`) and the session
channel into the enclave (`SessionCipher`).
