//! The Beacon frame: a position fix and a two-byte tag of a separately sent
//! scan's signature, in 17 bytes.
use crate::bits::{fields_fit, lemma_unpacked_packed, pack_fields, packed_bytes, unpack_fields, unpacked_fields, valid_layout, total_bits};
use crate::error::Error;
use crate::gps::{lemma_lora_round_trip, Gps};
use crate::lora_payload::{prefix_array, IntoFromLoraPayload};
use vstd::arithmetic::power2::*;
use vstd::prelude::*;

verus! {

/// The byte width of a Beacon frame.
pub const PAYLOAD_SIZE: usize = 17;

/// The field widths of a Beacon frame: time, latitude, longitude, HDOP,
/// altitude, speed, satellites, signature tag. Six padding bits follow.
pub open spec fn layout() -> Seq<u8> {
    seq![30u8, 25u8, 26u8, 10u8, 10u8, 9u8, 4u8, 16u8]
}

fn layout_exec() -> (r: Vec<u8>)
    ensures
        r@ == layout(),
        valid_layout(r@, PAYLOAD_SIZE as nat),
{
    let mut r: Vec<u8> = Vec::new();
    r.push(30);
    r.push(25);
    r.push(26);
    r.push(10);
    r.push(10);
    r.push(9);
    r.push(4);
    r.push(16);
    proof {
        assert(r@ =~= layout());
        lemma_layout_valid();
    }
    r
}

proof fn lemma_layout_valid()
    ensures
        valid_layout(layout(), PAYLOAD_SIZE as nat),
{
    reveal_with_fuel(total_bits, 9);
    assert(total_bits(layout()) == 130);
}

/// A position fix with the tag of the scan it refers to.
#[derive(Clone, Debug, PartialEq)]
pub struct Beacon {
    pub gps: Gps,
    pub signature: Vec<u8>,
}

impl Beacon {
    pub fn new(gps: Gps, signature: Vec<u8>) -> (r: Beacon)
        ensures
            r.gps == gps,
            r.signature == signature,
    {
        Beacon { gps, signature }
    }

    /// The unit counts of the frame's fields; the tag is the first two bytes
    /// of `signature`, big-endian.
    pub open spec fn lora_fields(&self) -> Seq<u64> {
        self.gps.lora_fields().push((self.signature@[0] * 256 + self.signature@[1]) as u64)
    }
}

proof fn lemma_fields_fit(b: Beacon)
    requires
        b.gps.fits_frame(),
        b.signature@.len() >= 2,
    ensures
        fields_fit(b.lora_fields(), layout()),
{
    lemma2_to64();
    let f = b.lora_fields();
    assert forall|i: int| 0 <= i < f.len() implies f[i] < pow2(layout()[i] as nat) by {
        if i == 7 {
            assert(f[7] <= 255 * 256 + 255);
        }
    }
}

impl IntoFromLoraPayload<PAYLOAD_SIZE> for Beacon {
    open spec fn encodable(&self) -> bool {
        self.gps.fits_frame() && self.signature@.len() >= 2
    }

    open spec fn lora_bytes(&self) -> Seq<u8> {
        packed_bytes(self.lora_fields(), layout(), PAYLOAD_SIZE as nat)
    }

    open spec fn decodes(bytes: Seq<u8>, r: Result<Beacon, Error>) -> bool {
        let f = unpacked_fields(bytes, layout());
        r matches Ok(b) && b.gps.is_decoded_from(f) && b.signature@ == seq![
            (f[7] / 256) as u8,
            (f[7] % 256) as u8,
        ]
    }

    open spec fn spec_label() -> Seq<char> {
        "Beacon"@
    }

    fn into_lora_bytes(self) -> (r: [u8; PAYLOAD_SIZE]) {
        let mut values = self.gps.lora_field_values();
        values.push((self.signature[0] as u64) * 256 + self.signature[1] as u64);
        proof {
            assert(values@ =~= self.lora_fields());
            lemma_fields_fit(self);
        }
        let widths = layout_exec();
        let bytes = pack_fields(&values, &widths, PAYLOAD_SIZE);
        prefix_array(bytes.as_slice())
    }

    fn from_lora_bytes(bytes: [u8; PAYLOAD_SIZE]) -> (r: Result<Beacon, Error>) {
        let widths = layout_exec();
        let f = unpack_fields(bytes.as_slice(), &widths);
        proof {
            lemma2_to64();
            assert(f@[0] < pow2(30));
            assert(f@[1] < pow2(25));
            assert(f@[2] < pow2(26));
            assert(f@[3] < pow2(10));
            assert(f@[4] < pow2(10));
            assert(f@[5] < pow2(9));
            assert(f@[6] < pow2(4));
            assert(f@[7] < pow2(16));
        }
        let gps = Gps::from_lora_fields(&f);
        let tag = f[7];
        let mut signature: Vec<u8> = Vec::new();
        signature.push((tag / 256) as u8);
        signature.push((tag % 256) as u8);
        proof {
            assert(signature@ =~= seq![(f@[7] / 256) as u8, (f@[7] % 256) as u8]);
        }
        Ok(Beacon { gps, signature })
    }

    fn label() -> (r: &'static str) {
        "Beacon"
    }
}

/// A beacon with a two-byte tag whose fix lies on its radio quanta decodes
/// from its own frame to the same fix and tag.
pub proof fn lemma_beacon_round_trip(b: Beacon, r: Result<Beacon, Error>)
    requires
        b.encodable(),
        b.gps.on_lora_quantum(),
        b.signature@.len() == 2,
        Beacon::decodes(b.lora_bytes(), r),
    ensures
        r matches Ok(d) && d.gps.same_fix(b.gps) && d.signature@ == b.signature@,
{
    lemma_fields_fit(b);
    lemma_layout_valid();
    lemma_unpacked_packed(b.lora_fields(), layout(), PAYLOAD_SIZE as nat);
    let f = b.lora_fields();
    assert(f.take(7) =~= b.gps.lora_fields());
    let d = r->Ok_0;
    assert(d.gps.is_decoded_from(b.gps.lora_fields()));
    lemma_lora_round_trip(b.gps, d.gps);
    let s0 = b.signature@[0] as int;
    let s1 = b.signature@[1] as int;
    vstd::arithmetic::div_mod::lemma_fundamental_div_mod_converse(s0 * 256 + s1, 256, s0, s1);
    assert(d.signature@ =~= b.signature@);
}

} // verus!
