//! Received signal strength: hundredths of a dBm.
use crate::decimal::Decimal;
use vstd::prelude::*;

verus! {

/// The envelope unit count of an RSSI: hundredths of a dBm, rounded.
pub open spec fn proto_units(rssi: Decimal) -> int {
    rssi.units(100, 0)
}

pub fn to_proto_units(rssi: Decimal) -> (r: i32)
    requires
        i32::MIN <= proto_units(rssi) <= i32::MAX,
    ensures
        r == proto_units(rssi),
{
    rssi.scaled_units(100, 0) as i32
}

pub fn from_proto_units(rssi: i32) -> (r: Decimal)
    ensures
        r.spec_mantissa() == rssi,
        r.spec_scale() == 2,
{
    Decimal::new(rssi as i64, 2)
}

} // verus!
