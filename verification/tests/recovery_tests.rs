use rabbitagent::failover::{fallback_step, heartbeat_actions, EnclaveAction, FallbackAction, MAX_RETRIES};
use rabbitagent::gateway::{
    inference_reply, try_verify_request_signature, verify_request_signature, InferenceReply, RequestSignature,
};

#[test]
fn success_is_returned_at_once() {
    assert_eq!(fallback_step(0, true), (FallbackAction::ReturnResult, 0));
    assert_eq!(fallback_step(2, true), (FallbackAction::ReturnResult, 2));
}

#[test]
fn failures_are_retried_up_to_the_limit() {
    let mut attempt = 0;
    let mut executions = 0;
    loop {
        executions += 1;
        let (action, next) = fallback_step(attempt, false);
        attempt = next;
        if action != FallbackAction::ReloadAndRetry {
            assert_eq!(action, FallbackAction::ReturnError);
            break;
        }
    }
    assert_eq!(executions, MAX_RETRIES + 1);
    assert_eq!(attempt, MAX_RETRIES);
}

#[test]
fn retry_then_success() {
    assert_eq!(fallback_step(0, false), (FallbackAction::ReloadAndRetry, 1));
    assert_eq!(fallback_step(1, false), (FallbackAction::ReloadAndRetry, 2));
    assert_eq!(fallback_step(2, true), (FallbackAction::ReturnResult, 2));
    assert_eq!(fallback_step(3, false), (FallbackAction::ReturnError, 3));
}

#[test]
fn live_enclave_needs_nothing() {
    assert!(heartbeat_actions(true).is_empty());
}

#[test]
fn dead_enclave_is_relaunched_then_reattested() {
    assert_eq!(heartbeat_actions(false), vec![EnclaveAction::Relaunch, EnclaveAction::RotateAttestation]);
}

#[test]
fn unsigned_request_is_unauthorized() {
    assert_eq!(inference_reply(false, Ok(vec![1])), InferenceReply::Unauthorized);
    assert_eq!(inference_reply(false, Err("x".to_string())), InferenceReply::Unauthorized);
}

#[test]
fn signed_request_gets_output_or_error() {
    assert_eq!(inference_reply(true, Ok(vec![1, 2])), InferenceReply::Output(vec![1, 2]));
    assert_eq!(
        inference_reply(true, Err("enclave down".to_string())),
        InferenceReply::InternalError("enclave down".to_string())
    );
}

fn signed(secret: [u8; 32], message: &[u8; 32]) -> (RequestSignature, [u8; 20]) {
    let sk = ethsign::SecretKey::from_raw(&secret).unwrap();
    let sig = sk.sign(message).unwrap();
    (RequestSignature { v: sig.v, r: sig.r, s: sig.s }, *sk.public().address())
}

#[test]
fn request_signed_by_the_authorized_key_is_accepted() {
    let msg = [3u8; 32];
    let (sig, addr) = signed([1u8; 32], &msg);
    assert!(verify_request_signature(&msg, &sig, &addr));
    assert_eq!(try_verify_request_signature(&msg, &sig, &addr), Some(true));
}

#[test]
fn request_signed_by_another_key_is_refused() {
    let msg = [3u8; 32];
    let (sig, _) = signed([1u8; 32], &msg);
    let (_, other) = signed([2u8; 32], &msg);
    assert!(!verify_request_signature(&msg, &sig, &other));
    assert_eq!(try_verify_request_signature(&msg, &sig, &other), Some(false));
}

#[test]
fn unrecoverable_signature_is_not_checked() {
    let msg = [3u8; 32];
    let (mut sig, addr) = signed([1u8; 32], &msg);
    sig.v = 9;
    assert_eq!(try_verify_request_signature(&msg, &sig, &addr), None);
    let (sig2, addr2) = signed([1u8; 32], &msg);
    assert_eq!(try_verify_request_signature(&[1, 2, 3], &sig2, &addr2), None);
}
