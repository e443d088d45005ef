//! Ground speed: quarters of a km/h on the radio link, hundredths in the
//! envelope.
use crate::decimal::Decimal;
use vstd::prelude::*;

verus! {

/// The radio unit count of a speed: quarters of a km/h, rounded.
pub open spec fn lora_units(speed: Decimal) -> int {
    speed.units(4, 0)
}

/// The envelope unit count of a speed: hundredths of a km/h, rounded.
pub open spec fn proto_units(speed: Decimal) -> int {
    speed.units(100, 0)
}

pub fn to_lora_units(speed: Decimal) -> (r: u32)
    requires
        0 <= lora_units(speed) <= u32::MAX,
    ensures
        r == lora_units(speed),
{
    speed.scaled_units(4, 0) as u32
}

/// `speed` quarters of a km/h, with two fractional digits.
pub fn from_lora_units(speed: u32) -> (r: Decimal)
    ensures
        r.spec_mantissa() == 25 * speed,
        r.spec_scale() == 2,
{
    Decimal::new(25 * speed as i64, 2)
}

pub fn to_proto_units(speed: Decimal) -> (r: u32)
    requires
        0 <= proto_units(speed) <= u32::MAX,
    ensures
        r == proto_units(speed),
{
    speed.scaled_units(100, 0) as u32
}

pub fn from_proto_units(speed: u32) -> (r: Decimal)
    ensures
        r.spec_mantissa() == speed,
        r.spec_scale() == 2,
{
    Decimal::new(speed as i64, 2)
}

} // verus!
