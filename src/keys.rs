//! Signing keys.
use helium_crypto::PublicKey;
use vstd::prelude::*;

pub mod file;

verus! {

/// A key that signs frames. Its errors reach callers as text.
pub trait KeyTrait {
    type Error: core::fmt::Debug;

    fn pubkey(&self) -> Result<PublicKey, Self::Error>;

    fn sign(&self, msg: &[u8]) -> Result<Vec<u8>, Self::Error>;
}

} // verus!
