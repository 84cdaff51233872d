//! Boundary to the outside cryptography crates.
//!
//! Everything the ledger needs from `p256` and `sha2` is reached through the
//! wrappers below.  Each result that is a pure function of the wrapper's
//! arguments is given an uninterpreted name, so that the contracts of the
//! verified code can speak about it exactly without restating the algorithm.

use vstd::prelude::*;

verus! {

/// The SHA-256 digest of a byte string (32 bytes).
pub uninterp spec fn sha256_of(data: Seq<u8>) -> Seq<u8>;

/// Whether a byte string parses as a valid (non-zero) NIST P-256 secret
/// scalar.
pub uninterp spec fn secret_key_ok(secret: Seq<u8>) -> bool;

/// The SEC1 uncompressed encoding of the public key derived from a secret scalar.
pub uninterp spec fn public_key_of(secret: Seq<u8>) -> Seq<u8>;

/// The RFC 6979 deterministic ECDSA/P-256 signature of a message under a secret key.
pub uninterp spec fn signature_of(secret: Seq<u8>, msg: Seq<u8>) -> Seq<u8>;

/// Whether RFC 6979 signing of `msg` under the secret key succeeds.  The
/// signer is deterministic, so success too depends on the secret key and the
/// message alone (it fails only when a computed signature scalar is zero).
pub uninterp spec fn sign_ok(secret: Seq<u8>, msg: Seq<u8>) -> bool;

/// The outcome of the ECDSA/P-256 verification of `sig` over `msg` under the
/// SEC1-encoded public key `public`; false as well when the key or the
/// signature bytes do not parse.
pub uninterp spec fn signature_checks(public: Seq<u8>, msg: Seq<u8>, sig: Seq<u8>) -> bool;

/// Relies on `sha2::Sha256::digest`: a 32-byte digest that depends on the
/// input bytes alone.
#[verifier::external_body]
pub(crate) fn sha256(data: &Vec<u8>) -> (r: Vec<u8>)
    ensures
        r@ == sha256_of(data@),
        r@.len() == 32,
{
    <sha2::Sha256 as sha2::Digest>::digest(data).to_vec()
}

/// Relies on `p256::ecdsa::SigningKey::random`: a fresh random secret scalar,
/// serialized with `to_bytes` (32 bytes, accepted back by `from_slice`), paired
/// with the SEC1 uncompressed encoding (65 bytes) of its `verifying_key`.
#[verifier::external_body]
pub(crate) fn generate_keypair() -> (r: (Vec<u8>, Vec<u8>))
    ensures
        secret_key_ok(r.0@),
        r.1@ == public_key_of(r.0@),
        r.0@.len() == 32,
        r.1@.len() == 65,
{
    let sk = p256::ecdsa::SigningKey::random(&mut rand_core::OsRng);
    let pk = sk.verifying_key().to_encoded_point(false);
    (sk.to_bytes().to_vec(), pk.as_bytes().to_vec())
}

/// Relies on `p256::ecdsa::SigningKey::from_slice` (succeeds exactly on a
/// valid secret scalar) and `VerifyingKey::to_encoded_point`: the SEC1
/// uncompressed encoding of the public key belonging to `secret`.
#[verifier::external_body]
pub(crate) fn derive_public_key(secret: &Vec<u8>) -> (r: Option<Vec<u8>>)
    ensures
        r is Some <==> secret_key_ok(secret@),
        r matches Some(p) ==> p@ == public_key_of(secret@),
{
    match p256::ecdsa::SigningKey::from_slice(secret) {
        Ok(sk) => Some(sk.verifying_key().to_encoded_point(false).as_bytes().to_vec()),
        Err(_) => None,
    }
}

/// Relies on `p256::ecdsa::SigningKey::try_sign` (RFC 6979): the signature,
/// and whether signing succeeds at all, depend on the secret key and the
/// message alone, and what `try_sign` produces verifies under the matching
/// public key.  `None` exactly when the secret bytes do not parse or the
/// deterministic signer reports an error.
#[verifier::external_body]
pub(crate) fn sign_bytes(secret: &Vec<u8>, msg: &Vec<u8>) -> (r: Option<Vec<u8>>)
    ensures
        (r is Some) <==> (secret_key_ok(secret@) && sign_ok(secret@, msg@)),
        r matches Some(s) ==> s@ == signature_of(secret@, msg@),
        r matches Some(s) ==> signature_checks(public_key_of(secret@), msg@, s@),
{
    let sk = match p256::ecdsa::SigningKey::from_slice(secret) {
        Ok(k) => k,
        Err(_) => return None,
    };
    match p256::ecdsa::signature::Signer::try_sign(&sk, msg) {
        Ok(sig) => {
            let s: p256::ecdsa::Signature = sig;
            Some(s.to_vec())
        }
        Err(_) => None,
    }
}

/// Relies on `p256::ecdsa::VerifyingKey::verify`: a deterministic check of the
/// three byte strings; false when the key or signature bytes do not parse or
/// the signature does not verify.
#[verifier::external_body]
pub(crate) fn verify_bytes(public: &Vec<u8>, msg: &Vec<u8>, sig: &Vec<u8>) -> (r: bool)
    ensures
        r == signature_checks(public@, msg@, sig@),
{
    let pk = match p256::ecdsa::VerifyingKey::from_sec1_bytes(public) {
        Ok(k) => k,
        Err(_) => return false,
    };
    let s = match p256::ecdsa::Signature::from_slice(sig) {
        Ok(s) => s,
        Err(_) => return false,
    };
    p256::ecdsa::signature::Verifier::verify(&pk, msg, &s).is_ok()
}

/// Relies on `std::time::SystemTime::now`; the result is converted to whole
/// seconds since the Unix epoch (0 if the clock reads earlier than the epoch).
/// Nothing is promised of it: a timestamp is data, not a computation.
#[verifier::external_body]
pub(crate) fn unix_time() -> u64 {
    match std::time::SystemTime::now().duration_since(std::time::UNIX_EPOCH) {
        Ok(d) => d.as_secs(),
        Err(_) => 0,
    }
}

} // verus!
