//! Keys of accounts, and the key pairs that `ring` makes.
use vstd::prelude::*;

verus! {

/// The length in bytes of a public key.
pub const PUBLIC_KEY_LEN: usize = 32;

/// A public key: 32 bytes.
pub type PublicKey = [u8; 32];

#[verifier::external_type_specification]
#[verifier::external_body]
pub struct ExEd25519KeyPair(ring::signature::Ed25519KeyPair);

#[verifier::external_type_specification]
#[verifier::external_body]
pub struct ExEcdsaKeyPair(ring::signature::EcdsaKeyPair);

/// A key pair of one of the signature schemes of `ring`.
pub enum KeyPair {
    Ed25519KeyPair { pair: ring::signature::Ed25519KeyPair },
    ECDSAKeyPair { pair: ring::signature::EcdsaKeyPair },
}

/// Whether `ring` takes the bytes as a PKCS#8 document of an Ed25519 key
/// pair.
pub uninterp spec fn ed25519_pkcs8_accepted(doc: Seq<u8>) -> bool;

/// Calls `SystemRandom::new` and `Ed25519KeyPair::generate_pkcs8` of
/// `ring`: the bytes of a PKCS#8 document of a new key pair drawn from the
/// system's random source, `None` when that source fails.  The document is
/// random; of it, only this is stated: `generate_pkcs8` wraps the seed with
/// the public key derived from it in the PKCS#8 v2 form that
/// `Ed25519KeyPair::from_pkcs8` reads and checks, so `ring` takes it (its
/// own example and tests read a generated document back this way).
#[verifier::external_body]
fn generate_ed25519_pkcs8() -> (r: Option<Vec<u8>>)
    ensures
        r matches Some(d) ==> ed25519_pkcs8_accepted(d@),
{
    let rng = ring::rand::SystemRandom::new();
    match ring::signature::Ed25519KeyPair::generate_pkcs8(&rng) {
        Ok(doc) => Some(doc.as_ref().to_vec()),
        Err(_) => None,
    }
}

/// Calls `Ed25519KeyPair::from_pkcs8` of `ring`: the key pair of a PKCS#8
/// document, `None` (for its `KeyRejected` error) when `ring` does not take
/// the document.
#[verifier::external_body]
fn ed25519_from_pkcs8(doc: &[u8]) -> (r: Option<ring::signature::Ed25519KeyPair>)
    ensures
        r is Some <==> ed25519_pkcs8_accepted(doc@),
{
    ring::signature::Ed25519KeyPair::from_pkcs8(doc).ok()
}

/// The message of the error when no document could be generated.
pub const PKCS8_ERROR: &'static str = "Failed to generate pkcs8";

/// The message of the error when the document was not taken.
pub const KEY_PAIR_ERROR: &'static str = "Failed to generate key_pair";

impl KeyPair {
    /// The Ed25519 key pair of a generated PKCS#8 document: the error
    /// `PKCS8_ERROR` when no document was generated, `KEY_PAIR_ERROR` when
    /// `ring` does not take it.
    pub fn ed25519_from_document(doc: Option<Vec<u8>>) -> (r: Result<KeyPair, String>)
        ensures
            match doc {
                None => r matches Err(e) && e@ == PKCS8_ERROR@,
                Some(d) => if ed25519_pkcs8_accepted(d@) {
                    r matches Ok(k) && k is Ed25519KeyPair
                } else {
                    r matches Err(e) && e@ == KEY_PAIR_ERROR@
                },
            },
    {
        match doc {
            None => Err(String::from_str(PKCS8_ERROR)),
            Some(d) => match ed25519_from_pkcs8(d.as_slice()) {
                Some(pair) => Ok(KeyPair::Ed25519KeyPair { pair: pair }),
                None => Err(String::from_str(KEY_PAIR_ERROR)),
            },
        }
    }

    /// Generates an Ed25519 key pair from the system's random source: the
    /// key pair of the generated document, which `ring` always takes, or
    /// `PKCS8_ERROR` when the random source fails, which the machine
    /// decides.
    pub fn gen_ed25519_keypair() -> (r: Result<KeyPair, String>)
        ensures
            match r {
                Ok(k) => k is Ed25519KeyPair,
                Err(e) => e@ == PKCS8_ERROR@,
            },
    {
        let doc = generate_ed25519_pkcs8();
        Self::ed25519_from_document(doc)
    }
}

} // verus!
