//! Latitude and longitude: hundred-thousandths of a degree, shifted to be
//! non-negative on the radio link, signed in the envelope.
use crate::decimal::Decimal;
use vstd::prelude::*;

verus! {

/// 90 degrees in hundred-thousandths.
pub const LAT_OFFSET_UNITS: i64 = 9000000;

/// 180 degrees in hundred-thousandths.
pub const LON_OFFSET_UNITS: i64 = 18000000;

/// 90.00000 degrees.
pub fn lat_offset() -> (r: Decimal)
    ensures
        r.spec_mantissa() == LAT_OFFSET_UNITS,
        r.spec_scale() == 5,
{
    Decimal::new(LAT_OFFSET_UNITS, 5)
}

/// 180.00000 degrees.
pub fn lon_offset() -> (r: Decimal)
    ensures
        r.spec_mantissa() == LON_OFFSET_UNITS,
        r.spec_scale() == 5,
{
    Decimal::new(LON_OFFSET_UNITS, 5)
}

/// A coordinate in degrees.
#[derive(Clone, Copy, Debug)]
pub enum Degrees {
    Lat(Decimal),
    Lon(Decimal),
}

/// A coordinate in radio units.
#[derive(Clone, Copy, Debug, PartialEq, Eq, Structural)]
pub enum Unit {
    Lat(u32),
    Lon(u32),
}

/// The radio unit count of a coordinate: hundred-thousandths of a degree
/// above -90 (latitude) or -180 (longitude), rounded.
pub open spec fn lora_units(coordinate: Degrees) -> int {
    match coordinate {
        Degrees::Lat(lat) => lat.units(100000, LAT_OFFSET_UNITS as int),
        Degrees::Lon(lon) => lon.units(100000, LON_OFFSET_UNITS as int),
    }
}

/// The envelope unit count: signed hundred-thousandths of a degree, rounded.
pub open spec fn proto_units(coordinate: Decimal) -> int {
    coordinate.units(100000, 0)
}

pub fn to_lora_units(coordinate: Degrees) -> (r: u32)
    requires
        0 <= lora_units(coordinate) <= u32::MAX,
    ensures
        r == lora_units(coordinate),
{
    let units = match coordinate {
        Degrees::Lat(lat) => lat.scaled_units(100000, LAT_OFFSET_UNITS),
        Degrees::Lon(lon) => lon.scaled_units(100000, LON_OFFSET_UNITS),
    };
    units as u32
}

/// The coordinate of a radio unit count, with five fractional digits.
pub fn from_lora_units(unit: Unit) -> (r: Decimal)
    ensures
        r.spec_scale() == 5,
        r.spec_mantissa() == match unit {
            Unit::Lat(lat) => lat - LAT_OFFSET_UNITS,
            Unit::Lon(lon) => lon - LON_OFFSET_UNITS,
        },
{
    match unit {
        Unit::Lat(lat) => Decimal::new(lat as i64 - LAT_OFFSET_UNITS, 5),
        Unit::Lon(lon) => Decimal::new(lon as i64 - LON_OFFSET_UNITS, 5),
    }
}

pub fn to_proto_units(coordinate: Decimal) -> (r: i32)
    requires
        i32::MIN <= proto_units(coordinate) <= i32::MAX,
    ensures
        r == proto_units(coordinate),
{
    coordinate.scaled_units(100000, 0) as i32
}

pub fn from_proto_units(unit: i32) -> (r: Decimal)
    ensures
        r.spec_mantissa() == unit,
        r.spec_scale() == 5,
{
    Decimal::new(unit as i64, 5)
}

} // verus!
