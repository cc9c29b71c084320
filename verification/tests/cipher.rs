use crypty::v2::{decrypt, encrypt, generate_key, xor_with_key, CipherError, BUFFER_SIZE};

fn sample_source(len: usize) -> Vec<u8> {
    (0..len).map(|i| (i % 251) as u8).collect()
}

#[test]
fn concrete_scenario_abc() {
    // source "ABC" with key [0x01, 0x02, 0x03] gives [0x40, 0x40, 0x40].
    let source = vec![0x41u8, 0x42, 0x43];
    let key = vec![0x01u8, 0x02, 0x03];
    let cipher = decrypt(&source, &key).unwrap();
    assert_eq!(cipher, vec![0x40u8, 0x40, 0x40]);
    // feeding the output back with the same key restores the source.
    let plain = decrypt(&cipher, &key).unwrap();
    assert_eq!(plain, vec![0x41u8, 0x42, 0x43]);
}

#[test]
fn xor_with_key_concrete() {
    let mut buffer = vec![0x41u8, 0x42, 0x43, 0xFF];
    let key = vec![0x01u8, 0x02, 0x03, 0x99];
    xor_with_key(&mut buffer, &key, 3);
    // only the first three bytes are transformed.
    assert_eq!(buffer, vec![0x40u8, 0x40, 0x40, 0xFF]);
}

#[test]
fn xor_involution_concrete() {
    let original = vec![0x00u8, 0x7F, 0x80, 0xFF, 0x55];
    let key = vec![0xAAu8, 0x55, 0x0F, 0xF0, 0x01];
    let mut buffer = original.clone();
    xor_with_key(&mut buffer, &key, 5);
    xor_with_key(&mut buffer, &key, 5);
    assert_eq!(buffer, original);
}

#[test]
fn round_trip_small() {
    let source = b"hello one-time pad".to_vec();
    let (cipher, key_stream) = encrypt(&source);
    let plain = decrypt(&cipher, &key_stream).unwrap();
    assert_eq!(plain, source);
}

#[test]
fn key_stream_length_equals_source_length() {
    for len in [0usize, 1, 17, 1000] {
        let source = sample_source(len);
        let (cipher, key_stream) = encrypt(&source);
        assert_eq!(key_stream.len(), len);
        assert_eq!(cipher.len(), len);
    }
}

#[test]
fn round_trip_at_chunk_boundaries() {
    for len in [
        BUFFER_SIZE - 1,
        BUFFER_SIZE,
        BUFFER_SIZE + 1,
        2 * BUFFER_SIZE,
    ] {
        let source = sample_source(len);
        let (cipher, key_stream) = encrypt(&source);
        assert_eq!(cipher.len(), len);
        assert_eq!(key_stream.len(), len);
        let plain = decrypt(&cipher, &key_stream).unwrap();
        assert_eq!(plain, source);
    }
}

#[test]
fn empty_source() {
    let source: Vec<u8> = Vec::new();
    let (cipher, key_stream) = encrypt(&source);
    assert!(cipher.is_empty());
    assert!(key_stream.is_empty());
    let plain = decrypt(&Vec::new(), &Vec::new()).unwrap();
    assert!(plain.is_empty());
}

#[test]
fn length_mismatch_shorter_key() {
    let source = sample_source(5);
    let key = sample_source(3);
    assert_eq!(decrypt(&source, &key), Err(CipherError::LengthMismatch));
}

#[test]
fn length_mismatch_longer_key() {
    let source = sample_source(3);
    let key = sample_source(5);
    assert_eq!(decrypt(&source, &key), Err(CipherError::LengthMismatch));
}

#[test]
fn length_mismatch_across_chunk_boundary() {
    // equal first chunk, divergence only in the second.
    let source = sample_source(BUFFER_SIZE + 1);
    let key = sample_source(BUFFER_SIZE);
    assert_eq!(decrypt(&source, &key), Err(CipherError::LengthMismatch));
}

#[test]
fn generate_key_touches_only_the_prefix() {
    let mut key_buffer = vec![7u8; 10];
    generate_key(&mut key_buffer, 4);
    assert_eq!(key_buffer.len(), 10);
    assert_eq!(&key_buffer[4..], &[7u8; 6]);
}

#[test]
fn encryption_transforms_through_the_generated_key() {
    // the ciphertext is the XOR of source and key stream, byte for byte.
    let source = sample_source(64);
    let (cipher, key_stream) = encrypt(&source);
    for i in 0..64 {
        assert_eq!(cipher[i], source[i] ^ key_stream[i]);
    }
}
