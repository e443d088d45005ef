//! Frequency: thousandths of the reported unit.
use crate::decimal::Decimal;
use vstd::prelude::*;

verus! {

/// The envelope unit count of a frequency: thousandths, rounded.
pub open spec fn proto_units(frequency: Decimal) -> int {
    frequency.units(1000, 0)
}

pub fn to_proto_units(frequency: Decimal) -> (r: u32)
    requires
        0 <= proto_units(frequency) <= u32::MAX,
    ensures
        r == proto_units(frequency),
{
    frequency.scaled_units(1000, 0) as u32
}

pub fn from_proto_units(frequency: u32) -> (r: Decimal)
    ensures
        r.spec_mantissa() == frequency,
        r.spec_scale() == 3,
{
    Decimal::new(frequency as i64, 3)
}

} // verus!
