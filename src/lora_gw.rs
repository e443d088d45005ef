//! Unit conversions of what a receiving gateway reports in the envelope.
use vstd::prelude::*;

pub mod frequency;
pub mod rssi;
pub mod snr;
