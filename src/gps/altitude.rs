//! Altitude above the WGS-84 ellipsoid: quarters of a meter above -110 m on
//! the radio link, signed hundredths of a meter in the envelope.
use crate::decimal::Decimal;
use vstd::prelude::*;

verus! {

/// The offset, in quarters of a meter, that makes -110.00 m the zero unit.
pub const ALTITUDE_OFFSET_UNITS: i64 = 440;

/// 110.00 m.
pub fn altitude_offset() -> (r: Decimal)
    ensures
        r.spec_mantissa() == 11000,
        r.spec_scale() == 2,
{
    Decimal::new(11000, 2)
}

/// The radio unit count: quarters of a meter above -110 m, rounded.
pub open spec fn lora_units(altitude: Decimal) -> int {
    altitude.units(4, ALTITUDE_OFFSET_UNITS as int)
}

/// The envelope unit count: hundredths of a meter, rounded.
pub open spec fn proto_units(altitude: Decimal) -> int {
    altitude.units(100, 0)
}

pub fn to_lora_units(altitude: Decimal) -> (r: u32)
    requires
        0 <= lora_units(altitude) <= u32::MAX,
    ensures
        r == lora_units(altitude),
{
    altitude.scaled_units(4, ALTITUDE_OFFSET_UNITS) as u32
}

/// `altitude` quarters of a meter above -110.00 m, with two fractional digits.
pub fn from_lora_units(altitude: u32) -> (r: Decimal)
    ensures
        r.spec_mantissa() == 25 * altitude - 11000,
        r.spec_scale() == 2,
{
    Decimal::new(25 * altitude as i64 - 11000, 2)
}

pub fn to_proto_units(altitude: Decimal) -> (r: i32)
    requires
        i32::MIN <= proto_units(altitude) <= i32::MAX,
    ensures
        r == proto_units(altitude),
{
    altitude.scaled_units(100, 0) as i32
}

pub fn from_proto_units(altitude: i32) -> (r: Decimal)
    ensures
        r.spec_mantissa() == altitude,
        r.spec_scale() == 2,
{
    Decimal::new(altitude as i64, 2)
}

} // verus!
