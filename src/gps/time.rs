//! Timestamps: seconds since a reference epoch on the radio link, seconds
//! since the Unix epoch in the envelope.
use vstd::prelude::*;

verus! {

/// 2023-01-01T00:00:00 UTC in seconds since the Unix epoch.
pub const REFERENCE: i64 = 1672531200;

/// A UTC instant at second resolution: seconds since 1970-01-01T00:00:00 UTC.
#[derive(Clone, Copy, Debug, PartialEq, Eq, Structural)]
pub struct Timestamp {
    pub seconds: i64,
}

impl Timestamp {
    pub fn from_unix_seconds(seconds: i64) -> (r: Timestamp)
        ensures
            r.seconds == seconds,
    {
        Timestamp { seconds }
    }
}

/// Whether the instant lies in the `u32` range of seconds after `REFERENCE`.
pub open spec fn fits_lora_units(datetime: Timestamp) -> bool {
    REFERENCE <= datetime.seconds <= REFERENCE + u32::MAX
}

/// Seconds elapsed since `REFERENCE`. An instant before the epoch or more than
/// `u32::MAX` seconds after it is a caller error.
pub fn to_lora_units(datetime: Timestamp) -> (r: u32)
    requires
        fits_lora_units(datetime),
    ensures
        r == datetime.seconds - REFERENCE,
{
    (datetime.seconds - REFERENCE) as u32
}

/// The instant `timestamp` seconds after `REFERENCE`.
pub fn from_lora_units(timestamp: u32) -> (r: Timestamp)
    ensures
        r.seconds == timestamp + REFERENCE,
{
    Timestamp { seconds: timestamp as i64 + REFERENCE }
}

/// Seconds since the Unix epoch. An instant before the epoch is a caller
/// error, never wrapped.
pub fn to_proto_units(datetime: Timestamp) -> (r: u64)
    requires
        datetime.seconds >= 0,
    ensures
        r == datetime.seconds,
{
    datetime.seconds as u64
}

/// The instant `timestamp` seconds after the Unix epoch.
pub fn from_proto_units(timestamp: u64) -> (r: Timestamp)
    requires
        timestamp <= i64::MAX,
    ensures
        r.seconds == timestamp,
{
    Timestamp { seconds: timestamp as i64 }
}

/// Within the 30-bit range of a frame, reading `t` radio units gives an
/// instant that converts back to `t`.
pub proof fn lemma_lora_units_round_trip(t: u32, datetime: Timestamp)
    requires
        t < 0x4000_0000,
        datetime.seconds == t + REFERENCE,
    ensures
        fits_lora_units(datetime),
        datetime.seconds - REFERENCE == t,
        datetime.seconds < REFERENCE + 0x4000_0000,
{
}

} // verus!
