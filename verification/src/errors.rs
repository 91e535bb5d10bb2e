use vstd::prelude::*;

verus! {

/// A connection failed before it was usable: the first frame was not a
/// textual identity frame, or the peer closed before sending one.
/// The session is aborted and nothing is published.
#[derive(Clone, Copy, PartialEq, Eq, Structural, Debug)]
pub enum HandshakeError {
    /// The connection ended before any frame arrived.
    ClosedBeforeIdentity,
    /// The first frame was not a text frame.
    NonTextFirstFrame,
}

/// A merged configuration was missing a required entry.
#[derive(Clone, Copy, PartialEq, Eq, Structural, Debug)]
pub enum ConfigError {
    /// No relay address was given by any layer.
    MissingRelay,
    /// No private-key path was given by any layer.
    MissingClientKey,
}

/// A PEM document could not be read as the expected key.
#[derive(Clone, Copy, PartialEq, Eq, Structural, Debug)]
pub enum KeyError {
    /// The text was not a usable public key in PEM form.
    BadPublicKeyPem,
    /// The text was not a usable PKCS#8 private key in PEM form.
    BadPrivateKeyPem,
}

/// A per-message cryptographic failure. Always isolated: it never ends a
/// session and never affects other recipients of the same update.
#[derive(Clone, Copy, PartialEq, Eq, Structural, Debug)]
pub enum CryptoError {
    /// Encryption failed for one recipient (the payload exceeds what the
    /// recipient's key can pad, or the key is unusable).
    Encryption,
    /// A ciphertext frame could not be decrypted with the local private key.
    Decryption,
}

} // verus!
