//! Horizontal dilution of precision: hundredths of a meter.
use crate::decimal::Decimal;
use vstd::prelude::*;

verus! {

/// The unit count of an HDOP value: hundredths, rounded.
pub open spec fn hdop_units(hdop: Decimal) -> int {
    hdop.units(100, 0)
}

/// Hundredths of `hdop`, rounded to the nearest, halves away from zero.
pub fn to_units(hdop: Decimal) -> (r: u32)
    requires
        0 <= hdop_units(hdop) <= u32::MAX,
    ensures
        r == hdop_units(hdop),
{
    hdop.scaled_units(100, 0) as u32
}

/// The HDOP of `hdop` hundredths.
pub fn from_units(hdop: u32) -> (r: Decimal)
    ensures
        r.spec_mantissa() == hdop,
        r.spec_scale() == 2,
{
    Decimal::new(hdop as i64, 2)
}

} // verus!
