//! Ed25519 signing with the node's key, through `casper_types::crypto`.

use crate::keys::{PublicKey, SecretKey};
use crate::types::Signature;
use vstd::prelude::*;

verus! {

/// The Ed25519 signature of `message` under the secret key `secret`.
pub uninterp spec fn ed25519_signature(message: Seq<u8>, secret: Seq<u8>) -> Seq<u8>;

/// The Ed25519 public key of the secret key `secret`.
pub uninterp spec fn ed25519_public_key(secret: Seq<u8>) -> Seq<u8>;

/// Relies on `From<&SecretKey> for casper_types::PublicKey`: an Ed25519
/// secret key (any 32 bytes form one) gives its Ed25519 public key, which
/// depends on the secret alone.
#[verifier::external_body]
pub(crate) fn public_key_of(secret: &SecretKey) -> (r: PublicKey)
    ensures
        r.0@ == ed25519_public_key(secret.0@),
{
    let sk = casper_types::SecretKey::ed25519_from_bytes(secret.0).expect("32 bytes");
    let bytes = match casper_types::PublicKey::from(&sk) {
        casper_types::PublicKey::Ed25519(k) => Some(k.to_bytes()),
        _ => None,
    };
    PublicKey(bytes.expect("Ed25519 key"))
}

/// Relies on `casper_types::crypto::sign`: with an Ed25519 key pair it gives
/// the Ed25519 signature, which is deterministic and depends on the message
/// and the secret key alone.
#[verifier::external_body]
pub(crate) fn sign_hash(hash: &[u8; 32], secret: &SecretKey) -> (r: Signature)
    ensures
        r.0@ == ed25519_signature(hash@, secret.0@),
{
    let sk = casper_types::SecretKey::ed25519_from_bytes(secret.0).expect("32 bytes");
    let pk = casper_types::PublicKey::from(&sk);
    let bytes = match casper_types::crypto::sign(hash, &sk, &pk) {
        casper_types::crypto::Signature::Ed25519(s) => Some(s.to_bytes()),
        _ => None,
    };
    Signature(bytes.expect("Ed25519 signature"))
}

} // verus!
