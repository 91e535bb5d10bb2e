use clipboard_sync::crypto::{decrypt_with, encrypt_for, key_size};
use clipboard_sync::errors::CryptoError;
use clipboard_sync::keys::{PrivateKey, PublicKey};
use clipboard_sync::sink::{handle_ciphertext, SinkAction};
use clipboard_sync::state::ClipboardState;

use rsa::pkcs8::{EncodePrivateKey, EncodePublicKey, LineEnding};

fn fresh_pair(bits: usize) -> (PrivateKey, PublicKey) {
    let sk = rsa::RsaPrivateKey::new(&mut rand::thread_rng(), bits).expect("key generation");
    let sk_pem = sk.to_pkcs8_pem(LineEnding::LF).expect("private pem").to_string();
    let pk_pem = rsa::RsaPublicKey::from(&sk).to_public_key_pem(LineEnding::LF).expect(
        "public pem",
    );
    (
        PrivateKey::from_pem(&sk_pem).expect("parse private"),
        PublicKey::from_pem(&pk_pem).expect("parse public"),
    )
}

#[test]
fn round_trip_recovers_payload() {
    let (sk, pk) = fresh_pair(512);
    let payload = b"hello".to_vec();
    let ciphertext = encrypt_for(&pk, &payload).expect("encrypt");
    assert_ne!(ciphertext, payload);
    let recovered = decrypt_with(&sk, &ciphertext).expect("decrypt");
    assert_eq!(recovered, payload);
}

#[test]
fn ciphertext_is_modulus_sized() {
    let (_, pk) = fresh_pair(512);
    assert_eq!(key_size(&pk), 64);
    let ciphertext = encrypt_for(&pk, b"hi").expect("encrypt");
    assert_eq!(ciphertext.len(), 64);
}

#[test]
fn oversize_payload_fails_per_recipient() {
    let (_, pk) = fresh_pair(512);
    // A 512-bit modulus leaves 64 - 11 = 53 bytes of plaintext room.
    let payload = vec![0x61u8; 54];
    assert_eq!(encrypt_for(&pk, &payload), Err(CryptoError::Encryption));
    let fitting = vec![0x61u8; 53];
    assert!(encrypt_for(&pk, &fitting).is_ok());
}

#[test]
fn wrong_key_fails_to_decrypt() {
    let (_, pk) = fresh_pair(512);
    let (other_sk, _) = fresh_pair(512);
    let ciphertext = encrypt_for(&pk, b"secret").expect("encrypt");
    assert_eq!(decrypt_with(&other_sk, &ciphertext), Err(CryptoError::Decryption));
}

#[test]
fn sink_applies_new_payload() {
    let (sk, pk) = fresh_pair(512);
    let mut state = ClipboardState::new();
    let ciphertext = encrypt_for(&pk, b"hello").expect("encrypt");
    match handle_ciphertext(&mut state, &sk, &ciphertext) {
        SinkAction::Apply(p) => assert_eq!(p, b"hello".to_vec()),
        _ => panic!("expected the payload to be applied"),
    }
}

#[test]
fn sink_suppresses_duplicate() {
    let (sk, pk) = fresh_pair(512);
    let mut state = ClipboardState::new();
    let c1 = encrypt_for(&pk, b"hello").expect("encrypt");
    let c2 = encrypt_for(&pk, b"hello").expect("encrypt");
    assert!(matches!(handle_ciphertext(&mut state, &sk, &c1), SinkAction::Apply(_)));
    assert!(matches!(handle_ciphertext(&mut state, &sk, &c2), SinkAction::Duplicate));
}

#[test]
fn sink_discards_unreadable_frame() {
    let (sk, _) = fresh_pair(512);
    let mut state = ClipboardState::new();
    let garbage = vec![0u8; 64];
    assert!(matches!(handle_ciphertext(&mut state, &sk, &garbage), SinkAction::Undecryptable));
    // The state is untouched: a following real payload is still new.
    assert_eq!(state.last, Vec::<u8>::new());
}
