//! A signing key held in memory, as loaded from or saved to a key file.
use super::KeyTrait;
use crate::crypto::{generate_secp256k1_keypair, public_key_of, sign_message};
use helium_crypto::PublicKey;
use std::sync::Arc;
use vstd::prelude::*;

verus! {

/// std's I/O error, carried opaquely by key file errors.
#[verifier::external_type_specification]
#[verifier::external_body]
pub struct ExIoError(std::io::Error);

/// A signing key held in memory.
#[derive(Clone)]
pub struct File {
    pub keypair: Arc<helium_crypto::Keypair>,
}

/// Errors of key files and of signing with them.
#[derive(Debug)]
pub enum Error {
    HeliumCrypto(helium_crypto::Error),
    IoKeypairRead(std::io::Error),
    IoKeypairWrite(std::io::Error),
}

impl File {
    /// A fresh secp256k1 key.
    pub fn create_key() -> (r: Result<File, Error>)
        ensures
            r is Ok,
    {
        Ok(File::from_keypair(generate_secp256k1_keypair()))
    }

    /// The key for a keypair.
    pub fn from_keypair(keypair: helium_crypto::Keypair) -> File {
        File { keypair: Arc::new(keypair) }
    }

    /// A signature of `msg` under the key.
    pub fn sign(&self, msg: &[u8]) -> Result<Vec<u8>, Error> {
        match sign_message(&self.keypair, msg) {
            Ok(signature) => Ok(signature),
            Err(e) => Err(Error::HeliumCrypto(e)),
        }
    }
}

impl KeyTrait for File {
    type Error = Error;

    fn pubkey(&self) -> (r: Result<PublicKey, Error>) {
        Ok(public_key_of(&self.keypair))
    }

    fn sign(&self, msg: &[u8]) -> Result<Vec<u8>, Error> {
        match sign_message(&self.keypair, msg) {
            Ok(signature) => Ok(signature),
            Err(e) => Err(Error::HeliumCrypto(e)),
        }
    }
}

} // verus!
