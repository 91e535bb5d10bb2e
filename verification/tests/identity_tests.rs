use clipboard_sync::errors::KeyError;
use clipboard_sync::keys::{identity_of_der, PrivateKey, PublicKey};

use rsa::pkcs8::{EncodePrivateKey, EncodePublicKey, LineEnding};

fn fresh_key_pem(bits: usize) -> (String, String) {
    let sk = rsa::RsaPrivateKey::new(&mut rand::thread_rng(), bits).expect("key generation");
    let sk_pem = sk.to_pkcs8_pem(LineEnding::LF).expect("private pem").to_string();
    let pk_pem = rsa::RsaPublicKey::from(&sk).to_public_key_pem(LineEnding::LF).expect(
        "public pem",
    );
    (sk_pem, pk_pem)
}

#[test]
fn digest_matches_known_vector() {
    let id = identity_of_der(b"hello");
    assert_eq!(id, "2cf24dba5fb0a30e26e83b2ac5b9e29e1b161e5c1fa7425e73043362938b9824");
}

#[test]
fn identity_is_deterministic() {
    let (_, pk_pem) = fresh_key_pem(512);
    let k1 = PublicKey::from_pem(&pk_pem).expect("parse");
    let k2 = PublicKey::from_pem(&pk_pem).expect("parse");
    assert_eq!(k1.identity(), k2.identity());
    assert_eq!(k1.identity(), k1.identity());
}

#[test]
fn identity_is_sixty_four_hex_chars() {
    let (_, pk_pem) = fresh_key_pem(512);
    let k = PublicKey::from_pem(&pk_pem).expect("parse");
    let id = k.identity();
    assert_eq!(id.len(), 64);
    assert!(id.chars().all(|c| c.is_ascii_hexdigit() && !c.is_ascii_uppercase()));
}

#[test]
fn distinct_keys_distinct_identities() {
    let (_, pem1) = fresh_key_pem(512);
    let (_, pem2) = fresh_key_pem(512);
    let k1 = PublicKey::from_pem(&pem1).expect("parse");
    let k2 = PublicKey::from_pem(&pem2).expect("parse");
    assert_ne!(k1.identity(), k2.identity());
}

#[test]
fn private_key_identity_matches_public_half() {
    let (sk_pem, pk_pem) = fresh_key_pem(512);
    let sk = PrivateKey::from_pem(&sk_pem).expect("parse private");
    let pk = PublicKey::from_pem(&pk_pem).expect("parse public");
    assert_eq!(sk.identity(), pk.identity());
}

#[test]
fn bad_pem_is_rejected() {
    assert_eq!(PublicKey::from_pem("not a key").err(), Some(KeyError::BadPublicKeyPem));
    assert_eq!(PrivateKey::from_pem("not a key").err(), Some(KeyError::BadPrivateKeyPem));
}
