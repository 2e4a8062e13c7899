use chacha20poly1305::aead::{Aead, KeyInit};
use chacha20poly1305::{ChaCha20Poly1305, Nonce};
use rabbitagent::storage::{encrypt_shard, encrypt_shard_with_nonce, AdaptiveChunker, ErasureCoder, ErasureError};

#[test]
fn chunker_cuts_into_equal_pieces_and_a_remainder() {
    let c = AdaptiveChunker { min_chunk_size: 1, max_chunk_size: 100, target_chunks: 3 };
    let data: Vec<u8> = (0u8..10).collect();
    let chunks = c.new(&data);
    let sizes: Vec<usize> = chunks.iter().map(|ch| ch.data.len()).collect();
    assert_eq!(sizes, vec![3, 3, 3, 1]);
    let mut joined = Vec::new();
    for ch in &chunks {
        assert_eq!(ch.digest, *blake3::hash(&ch.data).as_bytes());
        assert!(ch.proof.is_none());
        joined.extend_from_slice(&ch.data);
    }
    assert_eq!(joined, data);
}

#[test]
fn chunker_with_exact_division() {
    let c = AdaptiveChunker { min_chunk_size: 1, max_chunk_size: 100, target_chunks: 2 };
    let chunks = c.new(&[1, 2, 3, 4]);
    assert_eq!(chunks.len(), 2);
    assert_eq!(chunks[0].data, vec![1, 2]);
    assert_eq!(chunks[1].data, vec![3, 4]);
}

#[test]
fn shard_ciphertext_and_tag_are_chacha20poly1305() {
    let key = [3u8; 32];
    let nonce = [4u8; 12];
    let data = b"shard payload".to_vec();
    let shard = encrypt_shard_with_nonce(&key, &nonce, &data).unwrap();
    assert_eq!(shard.nonce, nonce);
    assert_eq!(shard.ciphertext.len(), data.len());
    assert_ne!(shard.ciphertext, data);
    let cipher = ChaCha20Poly1305::new((&key).into());
    let expected = cipher.encrypt(Nonce::from_slice(&nonce), data.as_slice()).unwrap();
    let mut got = shard.ciphertext.clone();
    got.extend_from_slice(&shard.auth_tag);
    assert_eq!(got, expected);
}

#[test]
fn shard_with_random_nonce_decrypts() {
    let key = [9u8; 32];
    let data = vec![1u8; 100];
    let shard = encrypt_shard(&key, &data).unwrap();
    let cipher = ChaCha20Poly1305::new((&key).into());
    let mut sealed = shard.ciphertext.clone();
    sealed.extend_from_slice(&shard.auth_tag);
    let opened = cipher.decrypt(Nonce::from_slice(&shard.nonce), sealed.as_slice()).unwrap();
    assert_eq!(opened, data);
}

#[test]
fn erased_shards_are_reconstructed() {
    let coder = ErasureCoder::new(3, 2);
    let data = vec![vec![1u8, 2], vec![3, 4], vec![5, 6], vec![0, 0], vec![0, 0]];
    let full = coder.encode(&data);
    assert_eq!(full.len(), 5);
    assert_eq!(&full[..3], &data[..3]);
    let mut damaged: Vec<Option<Vec<u8>>> = full.iter().cloned().map(Some).collect();
    damaged[0] = None;
    damaged[4] = None;
    assert_eq!(coder.reconstruct(&mut damaged), Ok(()));
    let restored: Vec<Vec<u8>> = damaged.into_iter().map(|s| s.unwrap()).collect();
    assert_eq!(restored, full);
}

#[test]
fn parity_matches_reed_solomon_erasure() {
    let coder = ErasureCoder::new(2, 1);
    let data = vec![vec![10u8, 20, 30], vec![40, 50, 60], vec![0, 0, 0]];
    let full = coder.encode(&data);
    let rs = reed_solomon_erasure::galois_8::ReedSolomon::new(2, 1).unwrap();
    let mut expected = data.clone();
    rs.encode(&mut expected).unwrap();
    assert_eq!(full, expected);
    assert_ne!(full[2], vec![0, 0, 0]);
}

#[test]
fn reconstruct_with_too_few_present_fails() {
    let coder = ErasureCoder::new(2, 1);
    let mut shards: Vec<Option<Vec<u8>>> = vec![Some(vec![1]), None, None];
    assert_eq!(coder.reconstruct(&mut shards), Err(ErasureError::TooFewShardsPresent));
}

#[test]
fn reconstruct_with_wrong_shard_count_fails() {
    let coder = ErasureCoder::new(2, 1);
    let mut few: Vec<Option<Vec<u8>>> = vec![Some(vec![1]), Some(vec![2])];
    assert_eq!(coder.reconstruct(&mut few), Err(ErasureError::TooFewShards));
    let mut many: Vec<Option<Vec<u8>>> = vec![Some(vec![1]); 4];
    assert_eq!(coder.reconstruct(&mut many), Err(ErasureError::TooManyShards));
}

#[test]
fn reconstruct_with_uneven_shards_fails() {
    let coder = ErasureCoder::new(2, 1);
    let mut shards: Vec<Option<Vec<u8>>> = vec![Some(vec![1, 2]), Some(vec![3]), None];
    assert_eq!(coder.reconstruct(&mut shards), Err(ErasureError::IncorrectShardSize));
}

#[test]
fn reconstruct_with_empty_shard_fails() {
    let coder = ErasureCoder::new(2, 1);
    let mut shards: Vec<Option<Vec<u8>>> = vec![Some(vec![]), Some(vec![]), None];
    assert_eq!(coder.reconstruct(&mut shards), Err(ErasureError::EmptyShard));
}

#[test]
fn reconstruct_with_all_present_changes_nothing() {
    let coder = ErasureCoder::new(2, 1);
    let full = coder.encode(&[vec![1u8], vec![2], vec![0]]);
    let mut shards: Vec<Option<Vec<u8>>> = full.iter().cloned().map(Some).collect();
    assert_eq!(coder.reconstruct(&mut shards), Ok(()));
    let back: Vec<Vec<u8>> = shards.into_iter().map(|s| s.unwrap()).collect();
    assert_eq!(back, full);
}
