//! Bit-exact telemetry frames for a bandwidth-constrained radio link: unit
//! conversions between physical quantities and wire integers, the fixed
//! Beacon and CellAttach layouts, and the compact signed-frame envelope.
use vstd::prelude::*;

pub mod beacon;
pub mod bits;
pub mod cell_attach;
pub mod cell_scan;
mod crypto;
pub mod decimal;
pub mod error;
pub mod gps;
pub mod keys;
pub mod lora_gw;
pub mod lora_payload;
mod random;

pub use beacon::Beacon;
pub use cell_attach::{
    AttachCandidate, AttachCandidateConfig, CellAttach, CellAttachResult, RSRP_OFFSET, RSRQ_OFFSET,
};
pub use cell_scan::{CellScan, CellScanResult, CBRS_MCC, CBRS_MNC};
pub use decimal::Decimal;
pub use error::Error;
pub use gps::Gps;
pub use helium_crypto;
pub use lora_payload::IntoFromLoraPayload;

verus! {

/// A record of one of the kinds the sensor reports.
#[derive(Clone, Debug, PartialEq)]
pub enum Payload {
    CellAttach(CellAttach),
    CellScan(CellScan),
    Beacon(Beacon),
    Gps(Gps),
}

impl From<Beacon> for Payload {
    fn from(beacon: Beacon) -> (r: Payload) {
        Payload::Beacon(beacon)
    }
}

impl vstd::std_specs::convert::FromSpecImpl<Beacon> for Payload {
    open spec fn obeys_from_spec() -> bool {
        true
    }

    open spec fn from_spec(beacon: Beacon) -> Payload {
        Payload::Beacon(beacon)
    }
}

impl From<CellAttach> for Payload {
    fn from(attach: CellAttach) -> (r: Payload) {
        Payload::CellAttach(attach)
    }
}

impl vstd::std_specs::convert::FromSpecImpl<CellAttach> for Payload {
    open spec fn obeys_from_spec() -> bool {
        true
    }

    open spec fn from_spec(attach: CellAttach) -> Payload {
        Payload::CellAttach(attach)
    }
}

} // verus!
