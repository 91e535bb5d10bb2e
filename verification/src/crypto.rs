use vstd::prelude::*;

use crate::errors::CryptoError;
use crate::keys::{PrivateKey, PublicKey};

verus! {

/// Whether the DER encodes a genuine RSA public key: a modulus that is
/// the product of two distinct primes, with an exponent invertible
/// modulo its totient. No parser can check this — the PEM decoder
/// validates only arithmetic bounds — so it stands as a named
/// assumption, and every clause about what decryption recovers is
/// conditional on it. For key material that is not genuine RSA, nothing
/// is claimed of decryption at all.
pub uninterp spec fn rsa_wf(der: Seq<u8>) -> bool;

/// What decrypting a ciphertext with the private key of the key pair
/// whose public half has the given DER encoding yields: the recovered
/// plaintext, or nothing when the ciphertext does not decrypt under that
/// key. RSA decryption uses no randomness, and for a genuine RSA key
/// (`rsa_wf`) the public half determines the decryption function, so
/// the result depends on the public DER and the ciphertext alone. The
/// clauses that apply this name hold only under `rsa_wf`.
pub uninterp spec fn decrypt_of(recipient_der: Seq<u8>, ciphertext: Seq<u8>) -> Option<Seq<u8>>;

/// The size in bytes of the RSA modulus of the key with the given DER
/// encoding; ciphertexts have exactly this length, and PKCS#1 v1.5
/// padding takes 11 bytes of it.
pub uninterp spec fn rsa_key_bytes(der: Seq<u8>) -> nat;

/// The padding overhead of the encryption scheme in use.
pub open spec fn padding_overhead() -> nat {
    11
}

/// Whether a payload of the given length fits under the key's plaintext
/// bound: the modulus must leave room for the padding.
pub open spec fn fits_key(der: Seq<u8>, payload_len: nat) -> bool {
    payload_len + padding_overhead() <= rsa_key_bytes(der)
}

/// Relies on rsa::traits::PublicKeyParts::size: the byte length of the
/// key's modulus.
#[verifier::external_body]
pub fn key_size(k: &PublicKey) -> (r: usize)
    ensures
        r as nat == rsa_key_bytes(k.der()),
{
    rsa::traits::PublicKeyParts::size(&k.key)
}

/// Relies on rsa::RsaPublicKey::encrypt with Pkcs1v15Encrypt padding and
/// a fresh thread-local rng. Keys of this library exist only through the
/// validating PEM parser, so the call rejects exactly the payloads that
/// exceed the key's plaintext bound, and on success returns one
/// modulus-sized ciphertext. That decryption with the matching private
/// key maps the ciphertext back to the payload — the round-trip
/// correctness of RSA PKCS#1 v1.5 — holds of genuine RSA keys and is
/// therefore stated under `rsa_wf`, the assumption no parser can
/// discharge. The padding is drawn from the rng, so two calls on equal
/// inputs give different ciphertexts; nothing is stated about the
/// ciphertext bytes themselves.
#[verifier::external_body]
pub fn encrypt_for(k: &PublicKey, payload: &[u8]) -> (r: Result<Vec<u8>, CryptoError>)
    ensures
        r is Ok <==> fits_key(k.der(), payload@.len()),
        r matches Ok(c) ==> {
            &&& rsa_wf(k.der()) ==> decrypt_of(k.der(), c@) == Some(payload@)
            &&& c@.len() == rsa_key_bytes(k.der())
        },
{
    k.key.encrypt(&mut rand::thread_rng(), rsa::Pkcs1v15Encrypt, payload).map_err(
        |_| CryptoError::Encryption,
    )
}

/// Relies on rsa::RsaPrivateKey::decrypt with Pkcs1v15Encrypt padding:
/// deterministic recovery of the plaintext (no rng, no blinding),
/// failing exactly when the ciphertext is not a valid encryption under
/// this key pair (corrupted, or produced for a different recipient).
/// That the outcome is a function of the public half and the ciphertext
/// holds of genuine RSA pairs, so both clauses stand under `rsa_wf`.
#[verifier::external_body]
pub fn decrypt_with(sk: &PrivateKey, ciphertext: &[u8]) -> (r: Result<Vec<u8>, CryptoError>)
    ensures
        rsa_wf(sk.pub_der()) ==> (r matches Ok(p) ==> decrypt_of(sk.pub_der(), ciphertext@)
            == Some(p@)),
        rsa_wf(sk.pub_der()) ==> (r is Err ==> decrypt_of(sk.pub_der(), ciphertext@) is None),
{
    sk.key.decrypt(rsa::Pkcs1v15Encrypt, ciphertext).map_err(|_| CryptoError::Decryption)
}

} // verus!
