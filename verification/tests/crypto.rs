use std::collections::HashSet;
use zellij_relay::crypto::{
    decrypt, derive_key, encrypt, encrypt_with_nonce, hash_token, payload_length_fits,
    plaintext_length_fits, CryptoError, CIPHERTEXT_LIMIT, KEY_LEN, MAX_PLAINTEXT, NONCE_LEN,
    PLAINTEXT_LIMIT, TAG_LEN,
};
use zellij_relay::multiplexer::{RelayTunnelState, TokenValidation};

#[test]
fn derive_key_is_deterministic() {
    let k1 = derive_key("some-token", "tunnel-abc");
    let k2 = derive_key("some-token", "tunnel-abc");
    assert_eq!(k1, k2);
}

#[test]
fn derive_key_depends_on_token() {
    let k1 = derive_key("token-a", "tunnel-abc");
    let k2 = derive_key("token-b", "tunnel-abc");
    assert_ne!(k1, k2);
}

#[test]
fn derive_key_depends_on_tunnel_id() {
    let k1 = derive_key("same-token", "tunnel-1");
    let k2 = derive_key("same-token", "tunnel-2");
    assert_ne!(k1, k2);
}

#[test]
fn roundtrip_preserves_plaintext() {
    let key = derive_key("my-token", "t-123");
    let plaintext = b"hello, end-to-end world";
    let encrypted = encrypt(&key, plaintext).unwrap();
    let decrypted = decrypt(&key, &encrypted).unwrap();
    assert_eq!(decrypted, plaintext);
}

#[test]
fn roundtrip_preserves_empty_plaintext() {
    let key = derive_key("tok", "t");
    let encrypted = encrypt(&key, b"").unwrap();
    let decrypted = decrypt(&key, &encrypted).unwrap();
    assert_eq!(decrypted, b"");
}

#[test]
fn tampered_ciphertext_fails() {
    let key = derive_key("my-token", "t-123");
    let mut encrypted = encrypt(&key, b"confidential").unwrap();
    let tamper_idx = encrypted.len() - 1;
    encrypted[tamper_idx] ^= 0x01;
    let err = decrypt(&key, &encrypted).expect_err("should fail");
    assert!(matches!(err, CryptoError::Decrypt));
}

#[test]
fn wrong_key_fails() {
    let key_a = derive_key("token-a", "t");
    let key_b = derive_key("token-b", "t");
    let encrypted = encrypt(&key_a, b"secret").unwrap();
    let err = decrypt(&key_b, &encrypted).expect_err("should fail");
    assert!(matches!(err, CryptoError::Decrypt));
}

#[test]
fn truncated_ciphertext_fails() {
    let key = derive_key("tok", "t");
    let encrypted = encrypt(&key, b"secret").unwrap();
    let err = decrypt(&key, &encrypted[..5]).expect_err("should fail");
    assert!(matches!(err, CryptoError::TooShort { .. }));
}

#[test]
fn nonces_are_unique_across_many_encrypts() {
    // Sample a moderate number of encrypts; we care about catching a
    // constant-nonce bug, not about exhaustively validating OsRng.
    let key = derive_key("tok", "t");
    let mut seen = HashSet::new();
    for _ in 0..10_000 {
        let encrypted = encrypt(&key, b"x").unwrap();
        let nonce = encrypted[..NONCE_LEN].to_vec();
        assert!(seen.insert(nonce), "duplicate nonce");
    }
}

/// The key that a session host keeps for a viewer with this token hash.
fn multiplexer_key(token_hash: &str, tunnel_id: &str) -> [u8; KEY_LEN] {
    let mut state = RelayTunnelState::new(tunnel_id.to_string(), "sess".to_string());
    let valid = TokenValidation::Valid {
        is_read_only: false,
    };
    let _ = state.handle_auth_challenge(vec![1], token_hash.to_string(), valid);
    state.pending_e2e_keys[&1]
}

fn client_key(token_hash: &str, tunnel_id: &str) -> [u8; KEY_LEN] {
    derive_key(token_hash, tunnel_id)
}

#[test]
fn both_sides_derive_the_same_key() {
    let k_mux = multiplexer_key("deadbeef", "tunnel-x");
    let k_cli = client_key("deadbeef", "tunnel-x");
    assert_eq!(k_mux, k_cli);
}

#[test]
fn outbound_pump_ciphertext_decrypts_on_client_side() {
    let k_mux = multiplexer_key("deadbeef", "tunnel-x");
    let k_cli = client_key("deadbeef", "tunnel-x");
    let plaintext = b"hello from the multiplexer";

    let ct = encrypt(&k_mux, plaintext).expect("encrypt ok");

    let pt = decrypt(&k_cli, &ct).expect("client decrypt ok");
    assert_eq!(pt, plaintext);
}

#[test]
fn inbound_pump_decrypts_client_produced_ciphertext() {
    let k_mux = multiplexer_key("deadbeef", "tunnel-x");
    let k_cli = client_key("deadbeef", "tunnel-x");
    let plaintext = b"typed on the client side";

    let ct = encrypt(&k_cli, plaintext).expect("client encrypt ok");

    let pt = decrypt(&k_mux, &ct).expect("multiplexer decrypt ok");
    assert_eq!(pt, plaintext);
}

#[test]
fn different_tunnel_id_breaks_the_contract() {
    let k_mux = multiplexer_key("deadbeef", "tunnel-a");
    let k_cli = client_key("deadbeef", "tunnel-b");
    let plaintext = b"secret";

    let ct = encrypt(&k_mux, plaintext).expect("encrypt ok");
    decrypt(&k_cli, &ct).expect_err("decrypt must fail under key mismatch");
}

#[test]
fn derived_key_is_the_hkdf_output() {
    let expected = "3cd76dd67aa7c8e72eb9c4e146ce3ab56c8f9907fc40f0eff533d69ce8203cdc";
    let key = derive_key("some-token", "tunnel-abc");
    let hex: Vec<String> = key.iter().map(|b| format!("{:02x}", b)).collect();
    assert_eq!(hex.concat(), expected);
}

#[test]
fn token_hash_is_the_hex_digest() {
    assert_eq!(
        hash_token("abc"),
        "ba7816bf8f01cfea414140de5dae2223b00361a396177a9cb410ff61f20015ad"
    );
    assert_eq!(
        hash_token(""),
        "e3b0c44298fc1c149afbf4c8996fb92427ae41e4649b934ca495991b7852b855"
    );
}

#[test]
fn payload_is_nonce_then_ciphertext() {
    let sealed = encrypt_with_nonce(&[0u8; KEY_LEN], &[0u8; NONCE_LEN], &[0u8; 16]).unwrap();
    let mut expected = vec![0u8; NONCE_LEN];
    expected.extend_from_slice(&[
        0xce, 0xa7, 0x40, 0x3d, 0x4d, 0x60, 0x6b, 0x6e, 0x07, 0x4e, 0xc5, 0xd3, 0xba, 0xf3, 0x9d,
        0x18, 0xd0, 0xd1, 0xc8, 0xa7, 0x99, 0x99, 0x6b, 0xf0, 0x26, 0x5b, 0x98, 0xb5, 0xd4, 0x8a,
        0xb9, 0x19,
    ]);
    assert_eq!(sealed, expected);
}

#[test]
fn payload_is_longer_by_nonce_and_tag() {
    let key = derive_key("tok", "t");
    for len in [0usize, 1, 15, 16, 17, 1000] {
        let sealed = encrypt(&key, &vec![7u8; len]).unwrap();
        assert_eq!(sealed.len(), NONCE_LEN + len + TAG_LEN);
    }
}

#[test]
fn short_payloads_are_told_apart() {
    let key = derive_key("tok", "t");
    assert_eq!(
        decrypt(&key, &[]),
        Err(CryptoError::TooShort {
            expected: NONCE_LEN,
            actual: 0
        })
    );
    assert_eq!(
        decrypt(&key, &[0u8; 11]),
        Err(CryptoError::TooShort {
            expected: 12,
            actual: 11
        })
    );
    assert_eq!(decrypt(&key, &[0u8; 12]), Err(CryptoError::Decrypt));
    assert_eq!(decrypt(&key, &[0u8; 27]), Err(CryptoError::Decrypt));
}

#[test]
fn crypto_errors_have_words() {
    assert_eq!(
        CryptoError::TooShort {
            expected: 12,
            actual: 5
        }
        .message(),
        "ciphertext too short (expected >= 12 bytes, got 5)"
    );
    assert_eq!(CryptoError::Decrypt.message(), "aead decryption failed");
    assert_eq!(CryptoError::Encrypt.message(), "aead encryption failed");
}

#[test]
fn lengths_that_the_cipher_takes() {
    assert!(plaintext_length_fits(0));
    assert!(plaintext_length_fits(MAX_PLAINTEXT as usize));
    assert!(!plaintext_length_fits(MAX_PLAINTEXT as usize + 1));
    assert!(!plaintext_length_fits(PLAINTEXT_LIMIT as usize));
    assert!(plaintext_length_fits(PLAINTEXT_LIMIT as usize + 1));
    let overhead = NONCE_LEN + TAG_LEN;
    assert!(payload_length_fits(overhead + MAX_PLAINTEXT as usize));
    assert!(!payload_length_fits(overhead + MAX_PLAINTEXT as usize + 1));
    assert!(!payload_length_fits(overhead + CIPHERTEXT_LIMIT as usize));
    assert!(payload_length_fits(overhead + CIPHERTEXT_LIMIT as usize + 1));
}
