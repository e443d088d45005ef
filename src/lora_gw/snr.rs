//! Signal-to-noise ratio: tenths of a dB.
use crate::decimal::Decimal;
use vstd::prelude::*;

verus! {

/// The envelope unit count of an SNR: tenths of a dB, rounded.
pub open spec fn proto_units(snr: Decimal) -> int {
    snr.units(10, 0)
}

pub fn to_proto_units(snr: Decimal) -> (r: u32)
    requires
        0 <= proto_units(snr) <= u32::MAX,
    ensures
        r == proto_units(snr),
{
    snr.scaled_units(10, 0) as u32
}

pub fn from_proto_units(snr: u32) -> (r: Decimal)
    ensures
        r.spec_mantissa() == snr,
        r.spec_scale() == 1,
{
    Decimal::new(snr as i64, 1)
}

} // verus!
