use rust_cli_chat::{
    aead_from_key, decrypt_message, derive_key_from_shared, encrypt_message, gen_x25519_keypair,
    pubkey_from_bytes, shared_secret_bytes, ChatError,
};

fn fresh_key() -> Vec<u8> {
    let (sk_a, _pk_a) = gen_x25519_keypair();
    let (_sk_b, pk_b) = gen_x25519_keypair();
    let shared = shared_secret_bytes(&sk_a, &pk_b);
    derive_key_from_shared(&shared)
}

#[test]
fn encrypt_decrypt_round_trip() {
    let key = fresh_key();
    let cipher = aead_from_key(&key);
    for plaintext in [
        Vec::new(),
        b"hello".to_vec(),
        b"a longer message with spaces and punctuation!".to_vec(),
        vec![0u8; 1000],
    ] {
        let sealed = encrypt_message(&cipher, &plaintext);
        assert_eq!(sealed.len(), plaintext.len() + 40);
        let opened = decrypt_message(&cipher, &sealed).expect("own message must decrypt");
        assert_eq!(opened, plaintext);
    }
}

#[test]
fn tampering_with_any_single_bit_is_detected() {
    let key = fresh_key();
    let cipher = aead_from_key(&key);
    let sealed = encrypt_message(&cipher, &b"attack at dawn".to_vec());
    for byte_idx in 0..sealed.len() {
        for bit in 0..8 {
            let mut tampered = sealed.clone();
            tampered[byte_idx] ^= 1u8 << bit;
            let r = decrypt_message(&cipher, &tampered);
            assert_eq!(r, Err(ChatError::AuthenticationFailed));
        }
    }
}

#[test]
fn wrong_key_is_rejected() {
    let key1 = fresh_key();
    let key2 = fresh_key();
    assert_ne!(key1, key2);
    let cipher1 = aead_from_key(&key1);
    let cipher2 = aead_from_key(&key2);
    let sealed = encrypt_message(&cipher1, &b"secret".to_vec());
    let r = decrypt_message(&cipher2, &sealed);
    assert_eq!(r, Err(ChatError::AuthenticationFailed));
}

#[test]
fn nonces_are_fresh_on_every_encrypt() {
    let key = fresh_key();
    let cipher = aead_from_key(&key);
    let plaintext = b"same text every time".to_vec();
    let mut nonces: Vec<Vec<u8>> = Vec::new();
    for _ in 0..64 {
        let sealed = encrypt_message(&cipher, &plaintext);
        assert_eq!(sealed.len(), plaintext.len() + 40);
        nonces.push(sealed[..24].to_vec());
    }
    for a in 0..nonces.len() {
        for b in (a + 1)..nonces.len() {
            assert_ne!(nonces[a], nonces[b]);
        }
    }
}

#[test]
fn handshake_agreement() {
    let (sk_a, pk_a) = gen_x25519_keypair();
    let (sk_b, pk_b) = gen_x25519_keypair();
    let key_a = derive_key_from_shared(&shared_secret_bytes(&sk_a, &pk_b));
    let key_b = derive_key_from_shared(&shared_secret_bytes(&sk_b, &pk_a));
    assert_eq!(key_a, key_b);
    assert_eq!(key_a.len(), 32);
}

#[test]
fn key_derivation_is_deterministic() {
    let shared = vec![7u8; 32];
    assert_eq!(derive_key_from_shared(&shared), derive_key_from_shared(&shared));
}

#[test]
fn derived_key_is_a_real_derivation() {
    // The derivation stretches the secret; it does not hand it back.
    let shared = vec![7u8; 32];
    let key = derive_key_from_shared(&shared);
    assert_eq!(key.len(), 32);
    assert_ne!(key, shared);
}

#[test]
fn ciphers_bound_to_the_same_key_interoperate() {
    let key = fresh_key();
    let sender = aead_from_key(&key);
    let receiver = aead_from_key(&key);
    let sealed = encrypt_message(&sender, &b"across ciphers".to_vec());
    assert_eq!(decrypt_message(&receiver, &sealed), Ok(b"across ciphers".to_vec()));
}

#[test]
fn payload_below_nonce_floor_is_malformed() {
    let key = fresh_key();
    let cipher = aead_from_key(&key);
    let r = decrypt_message(&cipher, &vec![1u8; 10]);
    assert_eq!(r, Err(ChatError::MalformedPayload));
    let r = decrypt_message(&cipher, &vec![1u8; 23]);
    assert_eq!(r, Err(ChatError::MalformedPayload));
    // Exactly a nonce and nothing else: not malformed, but no tag can verify.
    let r = decrypt_message(&cipher, &vec![1u8; 24]);
    assert_eq!(r, Err(ChatError::AuthenticationFailed));
}

#[test]
fn peer_key_must_be_exactly_32_bytes() {
    let good = vec![5u8; 32];
    assert_eq!(pubkey_from_bytes(&good), Ok(good.clone()));
    assert_eq!(pubkey_from_bytes(&vec![5u8; 31]), Err(ChatError::InvalidKeyLength));
    assert_eq!(pubkey_from_bytes(&vec![5u8; 33]), Err(ChatError::InvalidKeyLength));
    assert_eq!(pubkey_from_bytes(&Vec::new()), Err(ChatError::InvalidKeyLength));
}
