//! Cellular attach attempts: the candidate cell, the outcome, and the
//! CellAttach frame.
use crate::bits::{fields_fit, lemma_unpacked_packed, pack_fields, packed_bytes, total_bits, unpack_fields, unpacked_fields, valid_layout};
use crate::cell_scan::CellScanResult;
use crate::error::Error;
use crate::gps::{lemma_lora_round_trip, Gps};
use crate::lora_payload::{prefix_array, IntoFromLoraPayload};
use vstd::arithmetic::power2::*;
use vstd::prelude::*;
use vstd::string::*;

verus! {

/// Offset that maps a received signal power (dBm) into an unsigned byte.
pub const RSRP_OFFSET: i32 = 150;

/// Offset that maps a received signal quality (dBm) into an unsigned byte.
pub const RSRQ_OFFSET: i32 = 30;

/// A cellular cell considered for attach.
#[derive(Clone, Copy, Debug, PartialEq, Eq, Structural)]
pub struct AttachCandidate {
    pub from_scan: u32,
    pub delay: u32,
    pub cell_id: u32,
    pub fcn: u16,
    pub rsrp: i32,
    pub rsrq: i32,
}

/// What the operator adds to a scanned cell to make it a candidate.
#[derive(Clone, Copy, Debug, PartialEq, Eq, Structural)]
pub struct AttachCandidateConfig {
    pub from_scan: u32,
    pub delay: u32,
}

impl AttachCandidate {
    /// The candidate for a scanned cell: its cell id and channel number
    /// narrowed to the frame's widths, its signal power and quality, no scan
    /// marker and no delay.
    pub fn from_scan_result(scan_result: &CellScanResult) -> (r: AttachCandidate)
        ensures
            r.from_scan == 0,
            r.delay == 0,
            r.cell_id == scan_result.cell_id as u32,
            r.fcn == scan_result.earfcn as u16,
            r.rsrp == scan_result.rsrp,
            r.rsrq == scan_result.rsrq,
    {
        AttachCandidate {
            from_scan: 0,
            delay: 0,
            cell_id: scan_result.cell_id as u32,
            fcn: scan_result.earfcn as u16,
            rsrp: scan_result.rsrp,
            rsrq: scan_result.rsrq,
        }
    }

    /// The candidate for a scanned cell, with the operator's scan marker and
    /// delay.
    pub fn from_scan_result_with_config(
        scan_result: CellScanResult,
        config: AttachCandidateConfig,
    ) -> (r: AttachCandidate)
        ensures
            r.from_scan == config.from_scan,
            r.delay == config.delay,
            r.cell_id == scan_result.cell_id as u32,
            r.fcn == scan_result.earfcn as u16,
            r.rsrp == scan_result.rsrp,
            r.rsrq == scan_result.rsrq,
    {
        let mut ac = AttachCandidate::from_scan_result(&scan_result);
        ac.from_scan = config.from_scan;
        ac.delay = config.delay;
        ac
    }
}

impl From<CellScanResult> for AttachCandidate {
    fn from(scan_result: CellScanResult) -> (r: AttachCandidate) {
        AttachCandidate::from_scan_result(&scan_result)
    }
}

impl vstd::std_specs::convert::FromSpecImpl<CellScanResult> for AttachCandidate {
    open spec fn obeys_from_spec() -> bool {
        true
    }

    open spec fn from_spec(scan_result: CellScanResult) -> AttachCandidate {
        AttachCandidate {
            from_scan: 0,
            delay: 0,
            cell_id: scan_result.cell_id as u32,
            fcn: scan_result.earfcn as u16,
            rsrp: scan_result.rsrp,
            rsrq: scan_result.rsrq,
        }
    }
}

/// The outcome of an attach attempt.
#[derive(Clone, Copy, Debug, PartialEq, Eq, Structural)]
pub enum CellAttachResult {
    NoAttach,
    Connected,
    LimitedService,
    NoConnection,
    Search,
    NoNetworkService,
}

/// Whether the two texts hold the same characters.
fn same_text(a: &str, b: &str) -> (r: bool)
    ensures
        r == (a@ == b@),
{
    let n = a.unicode_len();
    if n != b.unicode_len() {
        return false;
    }
    let mut i: usize = 0;
    while i < n
        invariant
            n == a@.len(),
            n == b@.len(),
            i <= n,
            forall|j: int| 0 <= j < i ==> a@[j] == b@[j],
        decreases n - i,
    {
        if a.get_char(i) != b.get_char(i) {
            return false;
        }
        i = i + 1;
    }
    proof {
        assert(a@ =~= b@);
    }
    true
}

impl CellAttachResult {
    /// The 3-bit ordinal of the result on the wire.
    pub open spec fn ordinal(self) -> u64 {
        match self {
            CellAttachResult::NoAttach => 0,
            CellAttachResult::Connected => 1,
            CellAttachResult::LimitedService => 2,
            CellAttachResult::NoConnection => 3,
            CellAttachResult::Search => 4,
            CellAttachResult::NoNetworkService => 5,
        }
    }

    /// The short token that an external system reports for the result, where
    /// it has one.
    pub open spec fn alias(self) -> Option<Seq<char>> {
        match self {
            CellAttachResult::NoAttach => Some("NONE"@),
            CellAttachResult::Connected => Some("CONNECT"@),
            CellAttachResult::LimitedService => Some("LIMSERV"@),
            CellAttachResult::NoConnection => Some("NOCONN"@),
            CellAttachResult::Search => Some("SEARCH"@),
            CellAttachResult::NoNetworkService => None,
        }
    }

    /// The result whose ordinal is `value`, if any.
    pub open spec fn of_ordinal(value: int) -> Option<CellAttachResult> {
        if value == 0 {
            Some(CellAttachResult::NoAttach)
        } else if value == 1 {
            Some(CellAttachResult::Connected)
        } else if value == 2 {
            Some(CellAttachResult::LimitedService)
        } else if value == 3 {
            Some(CellAttachResult::NoConnection)
        } else if value == 4 {
            Some(CellAttachResult::Search)
        } else if value == 5 {
            Some(CellAttachResult::NoNetworkService)
        } else {
            None
        }
    }

    pub fn to_ordinal(self) -> (r: u8)
        ensures
            r == self.ordinal(),
    {
        match self {
            CellAttachResult::NoAttach => 0,
            CellAttachResult::Connected => 1,
            CellAttachResult::LimitedService => 2,
            CellAttachResult::NoConnection => 3,
            CellAttachResult::Search => 4,
            CellAttachResult::NoNetworkService => 5,
        }
    }

    /// The result of an ordinal; ordinals outside 0 to 5 name no result.
    pub fn from_ordinal(value: i32) -> (r: Result<CellAttachResult, Error>)
        ensures
            r == match CellAttachResult::of_ordinal(value as int) {
                Some(x) => Ok(x),
                None => Err::<CellAttachResult, Error>(Error::InvalidAttachResultInt { value }),
            },
    {
        match value {
            0 => Ok(CellAttachResult::NoAttach),
            1 => Ok(CellAttachResult::Connected),
            2 => Ok(CellAttachResult::LimitedService),
            3 => Ok(CellAttachResult::NoConnection),
            4 => Ok(CellAttachResult::Search),
            5 => Ok(CellAttachResult::NoNetworkService),
            _ => Err(Error::InvalidAttachResultInt { value }),
        }
    }

    /// Every outcome but `NoAttach` counts as a successful attach.
    pub fn is_successful(&self) -> (r: bool)
        ensures
            r == !(*self is NoAttach),
    {
        !matches!(self, CellAttachResult::NoAttach)
    }

    /// The result that a token names; an unknown token is an error.
    pub fn from_alias(s: &str) -> (r: Result<CellAttachResult, Error>)
        ensures
            (r matches Ok(x) ==> x.alias() == Some(s@)),
            (r matches Err(e) ==> (e matches Error::UnexpectedAttachResultStr(t) && t@ == s@) && forall|
                x: CellAttachResult,
            | x.alias() != Some(s@)),
    {
        proof {
            reveal_strlit("NONE");
            reveal_strlit("CONNECT");
            reveal_strlit("LIMSERV");
            reveal_strlit("NOCONN");
            reveal_strlit("SEARCH");
        }
        if same_text(s, "NONE") {
            Ok(CellAttachResult::NoAttach)
        } else if same_text(s, "CONNECT") {
            Ok(CellAttachResult::Connected)
        } else if same_text(s, "LIMSERV") {
            Ok(CellAttachResult::LimitedService)
        } else if same_text(s, "NOCONN") {
            Ok(CellAttachResult::NoConnection)
        } else if same_text(s, "SEARCH") {
            Ok(CellAttachResult::Search)
        } else {
            Err(Error::UnexpectedAttachResultStr(s.to_owned()))
        }
    }
}

/// Every result comes back from its ordinal, and only the ordinals 0 to 5
/// name a result.
pub proof fn lemma_ordinal_round_trip(x: CellAttachResult, value: int)
    ensures
        CellAttachResult::of_ordinal(x.ordinal() as int) == Some(x),
        x.ordinal() < 6,
        CellAttachResult::of_ordinal(value) is Some <==> 0 <= value < 6,
{
}

impl std::str::FromStr for CellAttachResult {
    type Err = Error;

    fn from_str(s: &str) -> (r: Result<CellAttachResult, Error>)
        ensures
            (r matches Ok(x) ==> x.alias() == Some(s@)),
            (r matches Err(e) ==> (e matches Error::UnexpectedAttachResultStr(t) && t@ == s@) && forall|
                x: CellAttachResult,
            | x.alias() != Some(s@)),
    {
        CellAttachResult::from_alias(s)
    }
}

/// The byte width of a CellAttach frame.
pub const PAYLOAD_SIZE: usize = 32;

/// The field widths of a CellAttach frame: time, latitude, longitude, HDOP,
/// altitude, speed, satellites, attach counter, the reserved scan-response
/// slot, delay, cell id, channel number, signal power, signal quality,
/// result. One padding bit follows.
pub open spec fn layout() -> Seq<u8> {
    seq![30u8, 25u8, 26u8, 10u8, 10u8, 9u8, 4u8, 32u8, 32u8, 10u8, 32u8, 16u8, 8u8, 8u8, 3u8]
}

fn layout_exec() -> (r: Vec<u8>)
    ensures
        r@ == layout(),
        valid_layout(r@, PAYLOAD_SIZE as nat),
{
    let mut r: Vec<u8> = Vec::new();
    r.push(30);
    r.push(25);
    r.push(26);
    r.push(10);
    r.push(10);
    r.push(9);
    r.push(4);
    r.push(32);
    r.push(32);
    r.push(10);
    r.push(32);
    r.push(16);
    r.push(8);
    r.push(8);
    r.push(3);
    proof {
        assert(r@ =~= layout());
        lemma_layout_valid();
    }
    r
}

proof fn lemma_layout_valid()
    ensures
        valid_layout(layout(), PAYLOAD_SIZE as nat),
{
    reveal_with_fuel(total_bits, 16);
    assert(total_bits(layout()) == 255);
}

/// An attach attempt: a wrapping counter that exposes dropped reports, where
/// it was made, the cell tried, and the outcome.
#[derive(Clone, Copy, Debug, PartialEq)]
pub struct CellAttach {
    pub attach_counter: u32,
    pub gps: Gps,
    pub candidate: AttachCandidate,
    pub result: CellAttachResult,
}

impl CellAttach {
    /// The unit counts of the frame's fields. The scan-response slot is
    /// reserved and always zero; signal power and quality are shifted by
    /// their offsets.
    pub open spec fn lora_fields(&self) -> Seq<u64> {
        self.gps.lora_fields() + seq![
            self.attach_counter as u64,
            0u64,
            self.candidate.delay as u64,
            self.candidate.cell_id as u64,
            self.candidate.fcn as u64,
            (self.candidate.rsrp + RSRP_OFFSET) as u64,
            (self.candidate.rsrq + RSRQ_OFFSET) as u64,
            self.result.ordinal(),
        ]
    }

    /// Whether the attempt is the one that the frame unit counts `f` stand
    /// for; the reserved slot is not read, so `from_scan` is zero.
    pub open spec fn is_decoded_from(&self, f: Seq<u64>) -> bool {
        &&& self.gps.is_decoded_from(f)
        &&& self.attach_counter == f[7]
        &&& self.candidate.from_scan == 0
        &&& self.candidate.delay == f[9]
        &&& self.candidate.cell_id == f[10]
        &&& self.candidate.fcn == f[11]
        &&& self.candidate.rsrp == f[12] - RSRP_OFFSET
        &&& self.candidate.rsrq == f[13] - RSRQ_OFFSET
        &&& self.result.ordinal() == f[14]
    }
}

proof fn lemma_fields_fit(a: CellAttach)
    requires
        a.gps.fits_frame(),
        a.candidate.delay < 1024,
        0 <= a.candidate.rsrp + RSRP_OFFSET < 256,
        0 <= a.candidate.rsrq + RSRQ_OFFSET < 256,
    ensures
        fields_fit(a.lora_fields(), layout()),
{
    lemma2_to64();
    let f = a.lora_fields();
    assert forall|i: int| 0 <= i < f.len() implies f[i] < pow2(layout()[i] as nat) by {
        if i < 7 {
            assert(f[i] == a.gps.lora_fields()[i]);
        }
    }
}

impl IntoFromLoraPayload<PAYLOAD_SIZE> for CellAttach {
    open spec fn encodable(&self) -> bool {
        &&& self.gps.fits_frame()
        &&& self.candidate.delay < 1024
        &&& 0 <= self.candidate.rsrp + RSRP_OFFSET < 256
        &&& 0 <= self.candidate.rsrq + RSRQ_OFFSET < 256
    }

    open spec fn lora_bytes(&self) -> Seq<u8> {
        packed_bytes(self.lora_fields(), layout(), PAYLOAD_SIZE as nat)
    }

    open spec fn decodes(bytes: Seq<u8>, r: Result<CellAttach, Error>) -> bool {
        let f = unpacked_fields(bytes, layout());
        if f[14] < 6 {
            r matches Ok(a) && a.is_decoded_from(f)
        } else {
            r == Err::<CellAttach, Error>(Error::InvalidAttachResultInt { value: f[14] as i32 })
        }
    }

    open spec fn spec_label() -> Seq<char> {
        "CellAttach"@
    }

    fn into_lora_bytes(self) -> (r: [u8; PAYLOAD_SIZE]) {
        let mut values = self.gps.lora_field_values();
        values.push(self.attach_counter as u64);
        values.push(0);
        values.push(self.candidate.delay as u64);
        values.push(self.candidate.cell_id as u64);
        values.push(self.candidate.fcn as u64);
        values.push((self.candidate.rsrp + RSRP_OFFSET) as u64);
        values.push((self.candidate.rsrq + RSRQ_OFFSET) as u64);
        values.push(self.result.to_ordinal() as u64);
        proof {
            assert(values@ =~= self.lora_fields());
            lemma_fields_fit(self);
        }
        let widths = layout_exec();
        let bytes = pack_fields(&values, &widths, PAYLOAD_SIZE);
        prefix_array(bytes.as_slice())
    }

    fn from_lora_bytes(bytes: [u8; PAYLOAD_SIZE]) -> (r: Result<CellAttach, Error>) {
        let widths = layout_exec();
        let f = unpack_fields(bytes.as_slice(), &widths);
        proof {
            lemma2_to64();
            assert(f@[0] < pow2(30));
            assert(f@[1] < pow2(25));
            assert(f@[2] < pow2(26));
            assert(f@[3] < pow2(10));
            assert(f@[4] < pow2(10));
            assert(f@[5] < pow2(9));
            assert(f@[6] < pow2(4));
            assert(f@[7] < pow2(32));
            assert(f@[9] < pow2(10));
            assert(f@[10] < pow2(32));
            assert(f@[11] < pow2(16));
            assert(f@[12] < pow2(8));
            assert(f@[13] < pow2(8));
            assert(f@[14] < pow2(3));
        }
        proof {
            lemma_ordinal_round_trip(CellAttachResult::NoAttach, f@[14] as int);
        }
        let result = match CellAttachResult::from_ordinal(f[14] as i32) {
            Ok(result) => result,
            Err(e) => {
                return Err(e);
            },
        };
        let gps = Gps::from_lora_fields(&f);
        Ok(
            CellAttach {
                attach_counter: f[7] as u32,
                gps,
                candidate: AttachCandidate {
                    from_scan: 0,
                    delay: f[9] as u32,
                    cell_id: f[10] as u32,
                    fcn: f[11] as u16,
                    rsrp: f[12] as i32 - RSRP_OFFSET,
                    rsrq: f[13] as i32 - RSRQ_OFFSET,
                },
                result,
            },
        )
    }

    fn label() -> (r: &'static str) {
        "CellAttach"
    }
}

/// An attempt whose fix lies on its radio quanta, and whose candidate has no
/// scan marker (the reserved slot carries none), decodes from its own frame to
/// the same attempt.
pub proof fn lemma_cell_attach_round_trip(a: CellAttach, r: Result<CellAttach, Error>)
    requires
        a.encodable(),
        a.gps.on_lora_quantum(),
        a.candidate.from_scan == 0,
        CellAttach::decodes(a.lora_bytes(), r),
    ensures
        r matches Ok(d) && d.gps.same_fix(a.gps) && d.attach_counter == a.attach_counter
            && d.candidate == a.candidate && d.result == a.result,
{
    lemma_fields_fit(a);
    lemma_layout_valid();
    lemma_unpacked_packed(a.lora_fields(), layout(), PAYLOAD_SIZE as nat);
    let f = a.lora_fields();
    assert(f.take(7) =~= a.gps.lora_fields());
    lemma_ordinal_round_trip(a.result, 0);
    let d = r->Ok_0;
    assert(d.gps.is_decoded_from(a.gps.lora_fields()));
    lemma_ordinal_round_trip(d.result, 0);
    lemma_lora_round_trip(a.gps, d.gps);
}

} // verus!
