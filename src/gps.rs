//! A GPS position fix and the unit conversions of its fields.
use crate::decimal::{lemma_units_on_quantum, pow10, Decimal};
use latlon::{Degrees, Unit};
use crate::random::{random_i64, random_u64};
use time::REFERENCE;
use vstd::prelude::*;

pub mod altitude;
pub mod hdop;
pub mod latlon;
pub mod speed;
pub mod time;

pub use time::Timestamp;

verus! {

/// A position fix as the sensor reports it.
#[derive(Clone, Copy, Debug, PartialEq)]
pub struct Gps {
    /// UTC of the position fix
    pub timestamp: Timestamp,
    /// Latitude in degrees
    pub lat: Decimal,
    /// Longitude in degrees
    pub lon: Decimal,
    /// Horizontal dilution of precision, meters
    pub hdop: Decimal,
    /// Height above the WGS-84 ellipsoid, meters
    pub altitude: Decimal,
    /// Number of satellites in use
    pub num_sats: u8,
    /// Speed over ground, km/h
    pub speed: Decimal,
}

impl Gps {
    /// A fix is locked when at least three satellites are in use and the HDOP
    /// is positive.
    pub open spec fn spec_is_locked(&self) -> bool {
        self.num_sats >= 3 && self.hdop.spec_mantissa() > 0
    }

    pub fn is_locked(&self) -> (r: bool)
        ensures
            r == self.spec_is_locked(),
    {
        self.num_sats >= 3 && self.hdop.mantissa() > 0
    }

    /// A fix at 2023-01-01T00:00:05 UTC with random fields in their usual
    /// ranges: latitude and longitude to 0.00001 degree, HDOP below 10.00,
    /// altitude from -106.00 to 85.00 m, fewer than 12 satellites, speed
    /// below 50.00 km/h.
    pub fn random() -> (r: Gps)
        ensures
            r.timestamp.seconds == REFERENCE + 5,
            -9000000 <= r.lat.spec_mantissa() < 9000000 && r.lat.spec_scale() == 5,
            -18000000 <= r.lon.spec_mantissa() < 18000000 && r.lon.spec_scale() == 5,
            0 <= r.hdop.spec_mantissa() < 1000 && r.hdop.spec_scale() == 2,
            -10600 <= r.altitude.spec_mantissa() < 8500 && r.altitude.spec_scale() == 2,
            r.num_sats < 12,
            0 <= r.speed.spec_mantissa() < 5000 && r.speed.spec_scale() == 2,
    {
        Gps {
            timestamp: time::Timestamp::from_unix_seconds(REFERENCE + 5),
            lat: Decimal::new(random_i64(-9000000, 9000000), 5),
            lon: Decimal::new(random_i64(-18000000, 18000000), 5),
            hdop: Decimal::new(random_i64(0, 1000), 2),
            altitude: Decimal::new(random_i64(-10600, 8500), 2),
            num_sats: random_u64(0, 12) as u8,
            speed: Decimal::new(random_i64(0, 5000), 2),
        }
    }

    /// A fixed fix whose fields lie on their radio quanta, for round trips:
    /// 2023-01-01T00:00:05 UTC, -50.12345, 120.12345, HDOP 9.05, altitude
    /// 9.25 m, 5 satellites, 50.50 km/h.
    pub fn rounded() -> (r: Gps)
        ensures
            r.timestamp.seconds == REFERENCE + 5,
            r.lat.spec_mantissa() == -5012345 && r.lat.spec_scale() == 5,
            r.lon.spec_mantissa() == 12012345 && r.lon.spec_scale() == 5,
            r.hdop.spec_mantissa() == 905 && r.hdop.spec_scale() == 2,
            r.altitude.spec_mantissa() == 925 && r.altitude.spec_scale() == 2,
            r.num_sats == 5,
            r.speed.spec_mantissa() == 5050 && r.speed.spec_scale() == 2,
    {
        Gps {
            timestamp: time::Timestamp::from_unix_seconds(REFERENCE + 5),
            lat: Decimal::new(-5012345, 5),
            lon: Decimal::new(12012345, 5),
            hdop: Decimal::new(905, 2),
            altitude: Decimal::new(925, 2),
            num_sats: 5,
            speed: Decimal::new(5050, 2),
        }
    }

    /// Whether the two fixes hold the same instant, the same numbers and the
    /// same satellite count.
    pub open spec fn same_fix(self, other: Gps) -> bool {
        &&& self.timestamp == other.timestamp
        &&& self.lat.same_value(other.lat)
        &&& self.lon.same_value(other.lon)
        &&& self.hdop.same_value(other.hdop)
        &&& self.altitude.same_value(other.altitude)
        &&& self.num_sats == other.num_sats
        &&& self.speed.same_value(other.speed)
    }

    /// The radio unit counts of the fields, in frame order: time, latitude,
    /// longitude, HDOP, altitude, speed, satellites.
    pub open spec fn lora_fields(&self) -> Seq<u64> {
        seq![
            (self.timestamp.seconds - REFERENCE) as u64,
            latlon::lora_units(Degrees::Lat(self.lat)) as u64,
            latlon::lora_units(Degrees::Lon(self.lon)) as u64,
            hdop::hdop_units(self.hdop) as u64,
            altitude::lora_units(self.altitude) as u64,
            speed::lora_units(self.speed) as u64,
            self.num_sats as u64,
        ]
    }

    /// Whether every field's unit count fits its width in a frame: 30 bits of
    /// time, 25 of latitude, 26 of longitude, 10 of HDOP, 10 of altitude, 9
    /// of speed, 4 of satellites. An instant 2^30 seconds (about 34 years) or
    /// more after the reference epoch does not fit: encoding it is a caller
    /// error, never wrapped or saturated.
    pub open spec fn fits_frame(&self) -> bool {
        &&& REFERENCE <= self.timestamp.seconds < REFERENCE + 0x4000_0000
        &&& 0 <= latlon::lora_units(Degrees::Lat(self.lat)) < 0x200_0000
        &&& 0 <= latlon::lora_units(Degrees::Lon(self.lon)) < 0x400_0000
        &&& 0 <= hdop::hdop_units(self.hdop) < 0x400
        &&& 0 <= altitude::lora_units(self.altitude) < 0x400
        &&& 0 <= speed::lora_units(self.speed) < 0x200
        &&& self.num_sats < 16
    }

    /// Whether the fix is the one that the frame unit counts `f` (in the
    /// order of `lora_fields`) stand for.
    pub open spec fn is_decoded_from(&self, f: Seq<u64>) -> bool {
        &&& self.timestamp.seconds == f[0] + REFERENCE
        &&& self.lat.spec_mantissa() == f[1] - latlon::LAT_OFFSET_UNITS
        &&& self.lat.spec_scale() == 5
        &&& self.lon.spec_mantissa() == f[2] - latlon::LON_OFFSET_UNITS
        &&& self.lon.spec_scale() == 5
        &&& self.hdop.spec_mantissa() == f[3]
        &&& self.hdop.spec_scale() == 2
        &&& self.altitude.spec_mantissa() == 25 * f[4] - 11000
        &&& self.altitude.spec_scale() == 2
        &&& self.speed.spec_mantissa() == 25 * f[5]
        &&& self.speed.spec_scale() == 2
        &&& self.num_sats == f[6]
    }

    /// Whether each decimal field lies on its radio quantum: 0.00001 degree
    /// for latitude and longitude, 0.01 m for HDOP, 0.25 for altitude and
    /// speed.
    pub open spec fn on_lora_quantum(&self) -> bool {
        &&& self.lat.on_quantum(100000)
        &&& self.lon.on_quantum(100000)
        &&& self.hdop.on_quantum(100)
        &&& self.altitude.on_quantum(4)
        &&& self.speed.on_quantum(4)
    }

    /// The radio unit counts of the fields, in frame order.
    pub fn lora_field_values(&self) -> (r: Vec<u64>)
        requires
            self.fits_frame(),
        ensures
            r@ == self.lora_fields(),
    {
        let mut r: Vec<u64> = Vec::new();
        r.push(time::to_lora_units(self.timestamp) as u64);
        r.push(latlon::to_lora_units(Degrees::Lat(self.lat)) as u64);
        r.push(latlon::to_lora_units(Degrees::Lon(self.lon)) as u64);
        r.push(hdop::to_units(self.hdop) as u64);
        r.push(altitude::to_lora_units(self.altitude) as u64);
        r.push(speed::to_lora_units(self.speed) as u64);
        r.push(self.num_sats as u64);
        proof {
            assert(r@ =~= self.lora_fields());
        }
        r
    }

    /// The fix that the frame unit counts `f` stand for.
    pub fn from_lora_fields(f: &Vec<u64>) -> (r: Gps)
        requires
            f@.len() >= 7,
            f@[0] < 0x4000_0000,
            f@[1] < 0x200_0000,
            f@[2] < 0x400_0000,
            f@[3] < 0x400,
            f@[4] < 0x400,
            f@[5] < 0x200,
            f@[6] < 16,
        ensures
            r.is_decoded_from(f@),
    {
        Gps {
            timestamp: time::from_lora_units(f[0] as u32),
            lat: latlon::from_lora_units(Unit::Lat(f[1] as u32)),
            lon: latlon::from_lora_units(Unit::Lon(f[2] as u32)),
            hdop: hdop::from_units(f[3] as u32),
            altitude: altitude::from_lora_units(f[4] as u32),
            num_sats: f[6] as u8,
            speed: speed::from_lora_units(f[5] as u32),
        }
    }
}

/// A fix whose fields lie on their radio quanta comes back from its frame
/// unit counts as the same fix.
pub proof fn lemma_lora_round_trip(fix: Gps, decoded: Gps)
    requires
        fix.fits_frame(),
        fix.on_lora_quantum(),
        decoded.is_decoded_from(fix.lora_fields()),
    ensures
        decoded.same_fix(fix),
{
    let f = fix.lora_fields();
    assert(pow10(2) == 100) by {
        reveal_with_fuel(pow10, 3);
    }
    assert(pow10(5) == 100000) by {
        reveal_with_fuel(pow10, 6);
    }
    lemma_units_on_quantum(fix.lat, 100000, latlon::LAT_OFFSET_UNITS as int);
    lemma_units_on_quantum(fix.lon, 100000, latlon::LON_OFFSET_UNITS as int);
    lemma_units_on_quantum(fix.hdop, 100, 0);
    lemma_units_on_quantum(fix.altitude, 4, altitude::ALTITUDE_OFFSET_UNITS as int);
    lemma_units_on_quantum(fix.speed, 4, 0);
    let pa = pow10(fix.altitude.spec_scale());
    let ua = altitude::lora_units(fix.altitude);
    assert((25 * ua - 11000) * pa == fix.altitude.spec_mantissa() * 100) by (nonlinear_arith)
        requires
            (ua - 440) * pa == fix.altitude.spec_mantissa() * 4,
    ;
    let ps = pow10(fix.speed.spec_scale());
    let us = speed::lora_units(fix.speed);
    assert((25 * us) * ps == fix.speed.spec_mantissa() * 100) by (nonlinear_arith)
        requires
            (us - 0) * ps == fix.speed.spec_mantissa() * 4,
    ;
}

} // verus!
