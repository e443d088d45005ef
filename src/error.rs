//! The errors the library reports.
use crate::decimal::Decimal;
use helium_crypto::PublicKey;
use vstd::prelude::*;

verus! {

#[derive(Debug)]
pub enum Error {
    /// A textual attach result that names no result.
    UnexpectedAttachResultStr(String),
    /// An attach result ordinal that names no result.
    InvalidAttachResultInt { value: i32 },
    /// A coordinate that has no floating-point value for geospatial indexing.
    DecimalCouldNotMapToFloat { decimal: Decimal },
    /// The signature does not verify the message for the key.
    SignatureVerification { pubkey: Box<PublicKey>, msg: Vec<u8>, signature: Vec<u8> },
    /// The signing key failed.
    Key(String),
    /// A signature that does not start with the structure tag and the length
    /// of what follows, so its header cannot be left out.
    UnexpectedSignatureHeader { signature: Vec<u8> },
    /// A signed frame shorter than the frame it must hold.
    InvalidVecForParsingLoraPayload { payload: &'static str, size: usize },
}

} // verus!
