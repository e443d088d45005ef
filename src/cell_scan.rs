//! Cell scan results as the modem reports them.
use crate::error::Error;
use crate::gps::Gps;
use crate::random::{random_i64, random_u64};
use vstd::prelude::*;

verus! {

/// Mobile country code of the CBRS network.
pub const CBRS_MCC: u16 = 315;

/// Mobile network code of the CBRS network.
pub const CBRS_MNC: u16 = 10;

/// One cell that a scan found.
#[derive(Clone, Debug, PartialEq, Eq, Structural)]
pub struct CellScanResult {
    pub mcc: u16,
    pub mnc: u16,
    pub earfcn: u32,
    pub physical_cell_id: u64,
    pub rsrp: i32,
    pub rsrq: i32,
    pub cell_id: u64,
    pub bandwidth: u32,
    pub lte: bool,
}

/// A scan: its counter, where it was taken, and the cells found.
#[derive(Clone, Debug, PartialEq)]
pub struct CellScan {
    pub scan_counter: u32,
    pub gps: Gps,
    pub results: Vec<CellScanResult>,
}

impl CellScanResult {
    /// Whether the cell belongs to the CBRS network's own cells: the CBRS
    /// country and network codes, and a cell id whose bits above the low
    /// eight lie in 0x0099D to 0x00A00.
    pub open spec fn spec_is_our_network(&self) -> bool {
        &&& self.mcc == CBRS_MCC
        &&& self.mnc == CBRS_MNC
        &&& 0x0099D <= self.cell_id / 256 <= 0x00A00
    }

    pub fn is_our_network(&self) -> (r: Result<bool, Error>)
        ensures
            r == Ok::<bool, Error>(self.spec_is_our_network()),
    {
        if self.mcc == CBRS_MCC && self.mnc == CBRS_MNC {
            let top_20_bits = self.cell_id >> 8;
            proof {
                vstd::bits::lemma_u64_shr_is_div(self.cell_id, 8);
                vstd::arithmetic::power2::lemma2_to64();
            }
            Ok(0x0099D <= top_20_bits && top_20_bits <= 0x00A00)
        } else {
            Ok(false)
        }
    }

    /// A scanned LTE cell with random fields in their usual ranges.
    pub fn random() -> (r: CellScanResult)
        ensures
            r.mcc < 999,
            r.mnc < 999,
            r.cell_id < 68719476735,
            r.earfcn < 4294967295,
            -144 <= r.rsrp < -44,
            -20 <= r.rsrq < -3,
            r.physical_cell_id < 503,
            r.bandwidth < 4294967295,
            r.lte,
    {
        CellScanResult {
            mcc: random_u64(0, 999) as u16,
            mnc: random_u64(0, 999) as u16,
            cell_id: random_u64(0, 68719476735),
            earfcn: random_u64(0, 4294967295) as u32,
            rsrp: random_i64(-144, -44) as i32,
            rsrq: random_i64(-20, -3) as i32,
            physical_cell_id: random_u64(0, 503),
            bandwidth: random_u64(0, 4294967295) as u32,
            lte: true,
        }
    }
}

impl CellScan {
    /// A scan with counter 24 at the fixed rounded fix, holding 1 to 39
    /// random cells.
    pub fn random() -> (r: CellScan)
        ensures
            r.scan_counter == 24,
            1 <= r.results@.len() < 40,
            r.gps.timestamp.seconds == crate::gps::time::REFERENCE + 5,
    {
        let count = random_u64(1, 40);
        let mut results: Vec<CellScanResult> = Vec::new();
        let mut i: u64 = 0;
        while i < count
            invariant
                i <= count < 40,
                results@.len() == i,
            decreases count - i,
        {
            results.push(CellScanResult::random());
            i = i + 1;
        }
        CellScan { scan_counter: 24, gps: Gps::rounded(), results }
    }
}

} // verus!
