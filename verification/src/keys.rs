use vstd::prelude::*;

use crate::errors::KeyError;

verus! {

#[verifier::external_type_specification]
#[verifier::external_body]
pub struct ExRsaPublicKey(rsa::RsaPublicKey);

#[verifier::external_type_specification]
#[verifier::external_body]
pub struct ExRsaPrivateKey(rsa::RsaPrivateKey);

/// The lowercase hex SHA-256 digest of a byte string, as the sha256 crate
/// computes it. The digest depends on the bytes alone.
pub uninterp spec fn sha256_hex_of(data: Seq<u8>) -> Seq<char>;

/// What reading a public key from a PEM document yields: the DER
/// encoding of the parsed and validated key, or nothing when the text is
/// not such a key. Parsing, validation and DER encoding are all
/// deterministic, so the result depends on the PEM text alone.
pub uninterp spec fn pub_key_der_of(pem: Seq<char>) -> Option<Seq<u8>>;

/// What reading a PKCS#8 private key from a PEM document yields, seen
/// through its public half: the DER encoding of the derived public key,
/// or nothing when the text is not such a key. Deterministic in the PEM
/// text alone, like the public parse.
pub uninterp spec fn private_pub_der_of(pem: Seq<char>) -> Option<Seq<u8>>;

/// A peer's identity: the lowercase hex SHA-256 digest of the DER
/// encoding of its public key. Deterministic by construction: equal key
/// material always yields equal identities. That distinct keys yield
/// distinct identities holds only with overwhelming probability and is
/// not stated here.
pub open spec fn identity_of(der: Seq<u8>) -> Seq<char> {
    sha256_hex_of(der)
}

/// Computing an identity twice from the same key material gives the same
/// identity: it is a function of the DER bytes and of nothing else.
pub proof fn lemma_identity_deterministic(der1: Seq<u8>, der2: Seq<u8>)
    requires
        der1 == der2,
    ensures
        identity_of(der1) == identity_of(der2),
{
}

/// Relies on sha256::digest over a byte slice: the lowercase hex encoding
/// of the 32-byte SHA-256 digest of the input, so 64 characters, depending
/// on the input bytes alone.
#[verifier::external_body]
fn sha256_hex(data: &[u8]) -> (r: String)
    ensures
        r@ == sha256_hex_of(data@),
        r@.len() == 64,
{
    sha256::digest(data)
}

/// The identity fingerprint of the given public-key DER encoding.
pub fn identity_of_der(der: &[u8]) -> (r: String)
    ensures
        r@ == identity_of(der@),
        r@.len() == 64,
{
    sha256_hex(der)
}

/// Relies on rsa::pkcs8::DecodePublicKey::from_public_key_pem followed by
/// rsa::pkcs8::EncodePublicKey::to_public_key_der: the parse validates
/// the key (odd modulus, exponent in bounds), and both steps are
/// deterministic, so the key-and-DER pair is a function of the PEM text,
/// named `pub_key_der_of`.
#[verifier::external_body]
fn parse_public_key_pem(pem: &str) -> (r: Result<(rsa::RsaPublicKey, Vec<u8>), KeyError>)
    ensures
        r is Ok <==> pub_key_der_of(pem@) is Some,
        r matches Ok(kd) ==> Some(kd.1@) == pub_key_der_of(pem@),
{
    let key: rsa::RsaPublicKey = match rsa::pkcs8::DecodePublicKey::from_public_key_pem(pem) {
        Ok(k) => k,
        Err(_) => {
            return Err(KeyError::BadPublicKeyPem);
        },
    };
    match rsa::pkcs8::EncodePublicKey::to_public_key_der(&key) {
        Ok(doc) => Ok((key, doc.as_bytes().to_vec())),
        Err(_) => Err(KeyError::BadPublicKeyPem),
    }
}

/// Relies on rsa::pkcs8::DecodePrivateKey::from_pkcs8_pem (which always
/// validates the parsed key), rsa::RsaPublicKey::from over the result,
/// and rsa::pkcs8::EncodePublicKey::to_public_key_der. All three steps
/// are deterministic, so the key and the DER encoding of its public half
/// are a function of the PEM text, named `private_pub_der_of`.
#[verifier::external_body]
fn parse_private_key_pem(pem: &str) -> (r: Result<(rsa::RsaPrivateKey, Vec<u8>), KeyError>)
    ensures
        r is Ok <==> private_pub_der_of(pem@) is Some,
        r matches Ok(kd) ==> Some(kd.1@) == private_pub_der_of(pem@),
{
    let key: rsa::RsaPrivateKey = match rsa::pkcs8::DecodePrivateKey::from_pkcs8_pem(pem) {
        Ok(k) => k,
        Err(_) => {
            return Err(KeyError::BadPrivateKeyPem);
        },
    };
    let pub_key = rsa::RsaPublicKey::from(&key);
    match rsa::pkcs8::EncodePublicKey::to_public_key_der(&pub_key) {
        Ok(doc) => Ok((key, doc.as_bytes().to_vec())),
        Err(_) => Err(KeyError::BadPrivateKeyPem),
    }
}

/// A recipient's public key together with its DER encoding, from which
/// its identity is derived. Built only through the validating PEM
/// parser, so the held key passed the rsa crate's key checks and the
/// DER bytes are always the encoding of the held key.
pub struct PublicKey {
    pub(crate) key: rsa::RsaPublicKey,
    pub(crate) der: Vec<u8>,
}

impl PublicKey {
    /// The DER encoding this key's identity is derived from.
    pub closed spec fn der(&self) -> Seq<u8> {
        self.der@
    }

    /// Read a public key from a PEM document. Succeeds exactly when the
    /// text is a valid, validated public key, and the returned key's DER
    /// encoding is exactly what that text encodes.
    pub fn from_pem(pem: &str) -> (r: Result<PublicKey, KeyError>)
        ensures
            r is Ok <==> pub_key_der_of(pem@) is Some,
            r matches Ok(k) ==> Some(k.der()) == pub_key_der_of(pem@),
            r matches Err(e) ==> e == KeyError::BadPublicKeyPem,
    {
        match parse_public_key_pem(pem) {
            Ok((key, der)) => Ok(PublicKey { key, der }),
            Err(_) => Err(KeyError::BadPublicKeyPem),
        }
    }

    /// This key's identity: the fingerprint of its DER encoding.
    pub fn identity(&self) -> (r: String)
        ensures
            r@ == identity_of(self.der()),
            r@.len() == 64,
    {
        identity_of_der(self.der.as_slice())
    }
}

/// The process's own private key, together with the DER encoding of its
/// public half, from which the process's own identity is derived. Never
/// leaves the process.
pub struct PrivateKey {
    pub(crate) key: rsa::RsaPrivateKey,
    pub(crate) pub_der: Vec<u8>,
}

impl PrivateKey {
    /// The DER encoding of the public half of this key pair.
    pub closed spec fn pub_der(&self) -> Seq<u8> {
        self.pub_der@
    }

    /// Read a private key from a PEM-encoded PKCS#8 document and derive
    /// its public half. Succeeds exactly when the text is such a key, and
    /// the public half's DER encoding is exactly what that text yields.
    pub fn from_pem(pem: &str) -> (r: Result<PrivateKey, KeyError>)
        ensures
            r is Ok <==> private_pub_der_of(pem@) is Some,
            r matches Ok(k) ==> Some(k.pub_der()) == private_pub_der_of(pem@),
            r matches Err(e) ==> e == KeyError::BadPrivateKeyPem,
    {
        match parse_private_key_pem(pem) {
            Ok((key, pub_der)) => Ok(PrivateKey { key, pub_der }),
            Err(_) => Err(KeyError::BadPrivateKeyPem),
        }
    }

    /// The process's own identity: the fingerprint of the public half.
    pub fn identity(&self) -> (r: String)
        ensures
            r@ == identity_of(self.pub_der()),
            r@.len() == 64,
    {
        identity_of_der(self.pub_der.as_slice())
    }
}

} // verus!
