//! The signing scheme's types and calls, from helium_crypto.
use helium_crypto::Error as CryptoError;
use helium_crypto::{Keypair, PublicKey, Sign, Verify};
use vstd::prelude::*;

verus! {

/// helium_crypto's public key, carried opaquely.
#[verifier::external_type_specification]
#[verifier::external_body]
pub struct ExPublicKey(helium_crypto::PublicKey);

/// helium_crypto's keypair, carried opaquely.
#[verifier::external_type_specification]
#[verifier::external_body]
pub struct ExKeypair(helium_crypto::Keypair);

/// helium_crypto's error, carried opaquely.
#[verifier::external_type_specification]
#[verifier::external_body]
pub struct ExCryptoError(CryptoError);

/// Whether `signature` is a valid signature of `msg` under `key`: it depends
/// on the key, the message and the signature alone.
pub uninterp spec fn signature_verifies(key: PublicKey, msg: Seq<u8>, signature: Seq<u8>) -> bool;

/// Relies on helium_crypto's `Verify::verify` for `PublicKey`: `Ok` exactly
/// when the signature is valid for the message under the key.
#[verifier::external_body]
pub(crate) fn verify_signature(pubkey: &PublicKey, msg: &[u8], signature: &[u8]) -> (r: Result<
    (),
    CryptoError,
>)
    ensures
        r is Ok <==> signature_verifies(*pubkey, msg@, signature@),
{
    pubkey.verify(msg, signature)
}

/// Relies on helium_crypto's `Sign::sign` for `Keypair`: a signature of the
/// message, or the scheme's error.
#[verifier::external_body]
pub(crate) fn sign_message(keypair: &Keypair, msg: &[u8]) -> Result<Vec<u8>, CryptoError> {
    keypair.sign(msg)
}

/// Relies on `Keypair::public_key` and the derived `Clone` of `PublicKey`.
#[verifier::external_body]
pub(crate) fn public_key_of(keypair: &Keypair) -> PublicKey {
    keypair.public_key().clone()
}

/// Relies on the derived `Clone` of `PublicKey`: the copy equals the key it
/// was made from.
#[verifier::external_body]
pub(crate) fn clone_public_key(pubkey: &PublicKey) -> (r: PublicKey)
    ensures
        r == *pubkey,
{
    pubkey.clone()
}

/// Relies on `Keypair::generate` with the operating system's random source: a
/// fresh secp256k1 main-net keypair.
#[verifier::external_body]
pub(crate) fn generate_secp256k1_keypair() -> Keypair {
    Keypair::generate(
        helium_crypto::KeyTag {
            network: helium_crypto::Network::MainNet,
            key_type: helium_crypto::KeyType::Secp256k1,
        },
        &mut rand::rngs::OsRng,
    )
}

/// Relies on `format!` with the value's `Debug` impl.
#[verifier::external_body]
pub(crate) fn debug_text<E: core::fmt::Debug>(e: &E) -> String {
    format!("{:?}", e)
}

} // verus!
