use rabbitagent::chain::{GasEstimator, MessageError, U256, ZkMessagePasser};

fn fees(v: &[u128]) -> GasEstimator {
    GasEstimator { base_fee_history: v.iter().map(|&f| U256::from_u128(f)).collect() }
}

#[test]
fn gas_price_of_empty_history_is_zero() {
    assert_eq!(fees(&[]).recommend_gas_price(), U256 { hi: 0, lo: 0 });
}

#[test]
fn gas_price_of_one_fee_is_that_fee() {
    assert_eq!(fees(&[100]).recommend_gas_price(), U256::from_u128(100));
}

#[test]
fn gas_price_moves_half_way_to_each_newer_fee() {
    // (100 + 200) / 2 = 150, then (150 + 300) / 2 = 225
    assert_eq!(fees(&[100, 200, 300]).recommend_gas_price(), U256::from_u128(225));
}

#[test]
fn gas_price_rounds_down_at_each_step() {
    // (1 + 2) / 2 = 1, then (1 + 5) / 2 = 3
    assert_eq!(fees(&[1, 2, 5]).recommend_gas_price(), U256::from_u128(3));
}

#[test]
fn gas_price_carries_between_the_halves() {
    // (2^128 - 1 + 2^128 - 1) / 2 = 2^128 - 1
    assert_eq!(fees(&[u128::MAX, u128::MAX]).recommend_gas_price(), U256::from_u128(u128::MAX));
    // (2^128 + 0) / 2 = 2^127
    let g = GasEstimator { base_fee_history: vec![U256 { hi: 1, lo: 0 }, U256 { hi: 0, lo: 0 }] };
    assert_eq!(g.recommend_gas_price(), U256 { hi: 0, lo: 1u128 << 127 });
    // (3 * 2^128 + 1 + 2^128 + 2^128 - 1) / 2 = 5 * 2^128 / 2 = 2 * 2^128 + 2^127
    let g = GasEstimator { base_fee_history: vec![U256 { hi: 3, lo: 1 }, U256 { hi: 1, lo: u128::MAX }] };
    assert_eq!(g.recommend_gas_price(), U256 { hi: 2, lo: 1u128 << 127 });
}

#[test]
fn gas_price_of_full_width_fees_does_not_overflow() {
    let max = U256 { hi: u128::MAX, lo: u128::MAX };
    let g = GasEstimator { base_fee_history: vec![max, max, max] };
    assert_eq!(g.recommend_gas_price(), max);
}

#[test]
fn gas_price_stays_between_lowest_and_highest_fee() {
    let r = fees(&[10, 30, 20, 25, 11]).recommend_gas_price();
    assert_eq!(r.hi, 0);
    assert!(10 <= r.lo && r.lo <= 30);
}

#[test]
fn built_message_body_layout() {
    let m = ZkMessagePasser::build_message(7, 1, 2, &[0xaa, 0xbb, 0xcc], &[0x01], b"quote");
    assert_eq!(m.version, 3);
    assert_eq!(m.nonce, 7);
    assert_eq!(m.origin_chain, 1);
    assert_eq!(m.destination_chain, 2);
    assert_eq!(m.body, vec![3, 0, 0, 0, 0, 0, 0, 0, 0xaa, 0xbb, 0xcc, 0x01]);
    assert_eq!(m.metadata, b"quote".to_vec());
}

#[test]
fn decoding_a_built_body_gives_back_proof_and_signal() {
    let proof: Vec<u8> = (0..=255u8).collect();
    let signal = b"public signal".to_vec();
    let m = ZkMessagePasser::build_message(1, 10, 20, &proof, &signal, &[]);
    assert_eq!(ZkMessagePasser::decode_proof(&m.body), Ok((proof, signal)));
}

#[test]
fn decoding_a_short_body_fails() {
    assert_eq!(ZkMessagePasser::decode_proof(&[1, 0, 0]), Err(MessageError::Truncated));
}

#[test]
fn decoding_a_body_shorter_than_its_proof_fails() {
    assert_eq!(
        ZkMessagePasser::decode_proof(&[5, 0, 0, 0, 0, 0, 0, 0, 1, 2]),
        Err(MessageError::Truncated)
    );
}

#[test]
fn decoding_empty_proof_and_signal() {
    assert_eq!(ZkMessagePasser::decode_proof(&[0; 8]), Ok((vec![], vec![])));
}
