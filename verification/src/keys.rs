//! Ed25519 keys, from the `ed25519-dalek` crate.

use vstd::prelude::*;
use ed25519_dalek::{SigningKey, VerifyingKey};
use rand::rngs::OsRng;

verus! {

/// The Ed25519 public key (the compressed Edwards point of RFC 8032) that
/// `ed25519-dalek` derives from a 32-byte secret key.
pub uninterp spec fn ed25519_public_key(secret: Seq<u8>) -> Seq<u8>;

/// `VerifyingKey::from(&SigningKey::from_bytes(secret))`, as bytes: the claim
/// is only that the result is a function of the secret key's bytes, named
/// `ed25519_public_key`; what that function computes is not stated.
#[verifier::external_body]
pub(crate) fn public_key_of(secret: &[u8; 32]) -> (public: [u8; 32])
    ensures
        public@ == ed25519_public_key(secret@),
{
    VerifyingKey::from(&SigningKey::from_bytes(secret)).to_bytes()
}

/// `SigningKey::generate` with the operating system's random source, as the
/// secret key's bytes. Nothing is claimed of them: they are random.
#[verifier::external_body]
pub(crate) fn generate_secret_key() -> [u8; 32] {
    SigningKey::generate(&mut OsRng).to_bytes()
}

} // verus!
