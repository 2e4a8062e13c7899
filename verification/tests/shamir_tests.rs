use rabbitagent::field::{field_inverse, field_reduce};
use rabbitagent::shamir::{SecretSharer, ShamirError, Share};

#[test]
fn field_inverse_of_three_is_eighty_six() {
    assert_eq!(field_inverse(3), 86);
    assert_eq!((3u32 * 86) % 257, 1);
}

#[test]
fn field_inverse_is_an_inverse_for_every_nonzero_element() {
    for a in 1u16..257 {
        let inv = field_inverse(a);
        assert!(inv < 257);
        assert_eq!((a as u32 * inv as u32) % 257, 1);
    }
}

#[test]
fn field_reduce_wraps_modulo_257() {
    assert_eq!(field_reduce(300), 43);
    assert_eq!(field_reduce(257), 0);
    assert_eq!(field_reduce(256), 256);
}

#[test]
fn split_with_known_coefficients_gives_line_values() {
    // secret byte 42, threshold 2, slope 7: y = 42 + 7x mod 257
    let shares = SecretSharer::split_with_coefficients(&[42], 3, 2, &[7]);
    assert_eq!(shares.len(), 3);
    assert_eq!(shares[0].x, 1);
    assert_eq!(shares[0].y, vec![49]);
    assert_eq!(shares[1].y, vec![56]);
    assert_eq!(shares[2].y, vec![63]);
}

#[test]
fn split_with_coefficients_wraps_in_the_field() {
    // 250 + 10x mod 257 at x = 1 is 3
    let shares = SecretSharer::split_with_coefficients(&[250], 1, 2, &[10]);
    assert_eq!(shares[0].y, vec![3]);
}

#[test]
fn any_threshold_subset_recovers_the_secret() {
    let sharer = SecretSharer {};
    let secret = b"correct horse battery staple".to_vec();
    let shares = sharer.split_secret(&secret, 5, 3);
    assert_eq!(shares.len(), 5);
    for i in 0..5 {
        for j in (i + 1)..5 {
            for k in (j + 1)..5 {
                let subset = vec![shares[i].clone(), shares[j].clone(), shares[k].clone()];
                assert_eq!(SecretSharer::recover_secret(&subset), Ok(secret.clone()));
            }
        }
    }
    assert_eq!(SecretSharer::recover_secret(&shares), Ok(secret.clone()));
}

#[test]
fn threshold_one_shares_are_the_secret() {
    let sharer = SecretSharer {};
    let shares = sharer.split_secret(&[1, 2, 3], 2, 1);
    assert_eq!(shares[0].y, vec![1, 2, 3]);
    assert_eq!(shares[1].y, vec![1, 2, 3]);
}

#[test]
fn recover_with_no_shares_fails() {
    assert_eq!(SecretSharer::recover_secret(&[]), Err(ShamirError::NoShares));
}

#[test]
fn recover_with_duplicate_points_fails() {
    let a = Share { x: 1, y: vec![5] };
    let b = Share { x: 1, y: vec![5] };
    assert_eq!(SecretSharer::recover_secret(&[a, b]), Err(ShamirError::DuplicateShare));
}

#[test]
fn recover_with_mismatched_lengths_fails() {
    let a = Share { x: 1, y: vec![5, 6] };
    let b = Share { x: 2, y: vec![5] };
    assert_eq!(SecretSharer::recover_secret(&[a, b]), Err(ShamirError::MismatchedLengths));
}

#[test]
fn recover_with_value_outside_field_fails() {
    let a = Share { x: 1, y: vec![300] };
    assert_eq!(SecretSharer::recover_secret(&[a]), Err(ShamirError::InvalidShareValue));
}

#[test]
fn recover_to_non_byte_fails() {
    let a = Share { x: 1, y: vec![256] };
    assert_eq!(SecretSharer::recover_secret(&[a]), Err(ShamirError::InconsistentShares));
}

#[test]
fn recover_from_two_points_on_a_line() {
    // (1, 49) and (3, 63) lie on y = 42 + 7x
    let a = Share { x: 1, y: vec![49] };
    let b = Share { x: 3, y: vec![63] };
    assert_eq!(SecretSharer::recover_secret(&[a, b]), Ok(vec![42]));
}
