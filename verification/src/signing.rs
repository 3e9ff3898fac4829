//! Ed25519 over plain bytes: keys, signatures and their verification.

use vstd::prelude::*;

verus! {

/// Whether `bytes` are an Ed25519 public key: 32 bytes that decompress to a
/// point of the curve.
pub uninterp spec fn ed25519_public_key(bytes: Seq<u8>) -> bool;

/// Calls `ed25519_dalek::PublicKey::from_bytes` and reports whether it accepted
/// `bytes`. It accepts only 32 bytes, and of those the ones that name a point.
#[verifier::external_body]
pub(crate) fn public_key_parses(bytes: &[u8]) -> (ok: bool)
    ensures
        ok == ed25519_public_key(bytes@),
        ok ==> bytes@.len() == 32,
{
    ed25519_dalek::PublicKey::from_bytes(bytes).is_ok()
}

/// A signature in transport form: 64 bytes, the three highest bits of the last
/// one clear.
pub open spec fn signature_well_formed(bytes: Seq<u8>) -> bool {
    bytes.len() == 64 && bytes[63] < 32
}

/// Calls `ed25519_dalek::Signature::from_bytes` and reports whether it accepted
/// `bytes`. It accepts exactly 64 bytes whose last byte has its three highest
/// bits clear.
#[verifier::external_body]
pub(crate) fn signature_parses(bytes: &[u8]) -> (ok: bool)
    ensures
        ok == signature_well_formed(bytes@),
{
    ed25519_dalek::Signature::from_bytes(bytes).is_ok()
}

/// Whether `signature` is accepted for `message` under `public_key`.
pub uninterp spec fn ed25519_verifies(
    public_key: Seq<u8>,
    message: Seq<u8>,
    signature: Seq<u8>,
) -> bool;

/// Calls `ed25519_dalek::Verifier::verify` on the key and the signature that
/// the given bytes parse to. The verdict depends on the three byte strings
/// alone.
#[verifier::external_body]
pub(crate) fn ed25519_verify(public_key: &[u8], message: &[u8], signature: &[u8]) -> (ok: bool)
    requires
        ed25519_public_key(public_key@),
        signature_well_formed(signature@),
    ensures
        ok == ed25519_verifies(public_key@, message@, signature@),
{
    let key = ed25519_dalek::PublicKey::from_bytes(public_key).unwrap();
    let parsed = ed25519_dalek::Signature::from_bytes(signature).unwrap();
    ed25519_dalek::Verifier::verify(&key, message, &parsed).is_ok()
}

/// A key pair in storage form: 32 bytes of secret key, then the 32 bytes of a
/// public key.
pub open spec fn keypair_well_formed(bytes: Seq<u8>) -> bool {
    bytes.len() == 64 && ed25519_public_key(bytes.subrange(32, 64))
}

/// Calls `ed25519_dalek::Keypair::from_bytes` and reports whether it accepted
/// `bytes`. It accepts exactly 64 bytes whose second half
/// `PublicKey::from_bytes` accepts; the first half is taken as it is.
#[verifier::external_body]
pub(crate) fn keypair_parses(bytes: &[u8]) -> (ok: bool)
    ensures
        ok == keypair_well_formed(bytes@),
{
    ed25519_dalek::Keypair::from_bytes(bytes).is_ok()
}

/// The signature that the key pair `keypair` gives to `message`.
pub uninterp spec fn ed25519_signature(keypair: Seq<u8>, message: Seq<u8>) -> Seq<u8>;

/// Calls `ed25519_dalek::Signer::sign` on the key pair that `keypair` parses
/// to. Signing is deterministic, and the signature comes out in the transport
/// form that `Signature::from_bytes` accepts.
#[verifier::external_body]
pub(crate) fn keypair_sign(keypair: &[u8], message: &[u8]) -> (signature: Vec<u8>)
    requires
        keypair_well_formed(keypair@),
    ensures
        signature@ == ed25519_signature(keypair@, message@),
        signature_well_formed(signature@),
{
    let pair = ed25519_dalek::Keypair::from_bytes(keypair).unwrap();
    ed25519_dalek::Signer::sign(&pair, message).to_bytes().to_vec()
}

/// Calls `ed25519_dalek::Keypair::generate` with the operating system's random
/// source. Every outcome is 64 bytes long; which bytes, nothing says.
#[verifier::external_body]
pub(crate) fn generate_keypair() -> (keypair: Vec<u8>)
    ensures
        keypair@.len() == 64,
{
    ed25519_dalek::Keypair::generate(&mut rand::rngs::OsRng {}).to_bytes().to_vec()
}

} // verus!
