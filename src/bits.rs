//! Packing of unsigned fields of fixed bit widths into a big-endian byte
//! string: the first field takes the most significant bits, fields follow one
//! another without alignment, and zero padding fills the last byte.
use vstd::arithmetic::div_mod::*;
use vstd::arithmetic::power2::*;
use vstd::bits::*;
use vstd::prelude::*;

verus! {

/// The number of bits that the fields of a layout take together.
pub open spec fn total_bits(widths: Seq<u8>) -> nat
    decreases widths.len(),
{
    if widths.len() == 0 {
        0
    } else {
        total_bits(widths.drop_last()) + widths.last() as nat
    }
}

/// The integer whose binary digits are the fields, each at its width, the
/// first field most significant.
pub open spec fn pack(values: Seq<u64>, widths: Seq<u8>) -> int
    decreases widths.len(),
{
    if widths.len() == 0 || values.len() == 0 {
        0
    } else {
        pack(values.drop_last(), widths.drop_last()) * pow2(widths.last() as nat)
            + values.last() as int
    }
}

/// The fields of the given widths that make up the low bits of `v`, the
/// first field most significant.
pub open spec fn unpack(v: int, widths: Seq<u8>) -> Seq<u64>
    decreases widths.len(),
{
    if widths.len() == 0 {
        seq![]
    } else {
        let w = pow2(widths.last() as nat) as int;
        unpack(v / w, widths.drop_last()).push((v % w) as u64)
    }
}

/// The number that a byte string denotes, first byte most significant.
pub open spec fn be_value(bytes: Seq<u8>) -> int
    decreases bytes.len(),
{
    if bytes.len() == 0 {
        0
    } else {
        be_value(bytes.drop_last()) * 256 + bytes.last() as int
    }
}

/// The `n` low bytes of `v`, most significant first.
pub open spec fn be_bytes(v: int, n: nat) -> Seq<u8>
    decreases n,
{
    if n == 0 {
        seq![]
    } else {
        be_bytes(v / 256, (n - 1) as nat).push((v % 256) as u8)
    }
}

/// Each value fits in the width of its field.
pub open spec fn fields_fit(values: Seq<u64>, widths: Seq<u8>) -> bool {
    &&& values.len() == widths.len()
    &&& forall|i: int| 0 <= i < values.len() ==> values[i] < pow2(widths[i] as nat)
}

/// Widths of 1 to 32 bits that fill `nbytes` bytes with less than a byte of
/// padding.
pub open spec fn valid_layout(widths: Seq<u8>, nbytes: nat) -> bool {
    &&& forall|i: int| 0 <= i < widths.len() ==> 1 <= #[trigger] widths[i] <= 32
    &&& total_bits(widths) <= 8 * nbytes < total_bits(widths) + 8
}

/// The zero bits after the last field.
pub open spec fn padding_bits(widths: Seq<u8>, nbytes: nat) -> nat {
    (8 * nbytes - total_bits(widths)) as nat
}

/// The bytes of a frame of `nbytes` bytes holding the given fields.
pub open spec fn packed_bytes(values: Seq<u64>, widths: Seq<u8>, nbytes: nat) -> Seq<u8> {
    be_bytes(pack(values, widths) * pow2(padding_bits(widths, nbytes)), nbytes)
}

/// The fields that a frame of the given layout holds.
pub open spec fn unpacked_fields(bytes: Seq<u8>, widths: Seq<u8>) -> Seq<u64> {
    unpack(be_value(bytes) / pow2(padding_bits(widths, bytes.len())) as int, widths)
}

proof fn lemma_take_last<T>(s: Seq<T>, i: int)
    requires
        0 <= i < s.len(),
    ensures
        s.take(i + 1).drop_last() == s.take(i),
        s.take(i + 1).last() == s[i],
        s.take(i + 1).len() == i + 1,
{
    assert(s.take(i + 1).drop_last() =~= s.take(i));
}

/// A byte string is the bytes of the number it denotes.
pub proof fn lemma_be_bytes_of_value(s: Seq<u8>)
    ensures
        be_bytes(be_value(s), s.len()) == s,
        0 <= be_value(s) < pow2(8 * s.len()),
    decreases s.len(),
{
    lemma2_to64();
    if s.len() > 0 {
        let init = s.drop_last();
        lemma_be_bytes_of_value(init);
        let x = be_value(s);
        lemma_fundamental_div_mod_converse(x, 256, be_value(init), s.last() as int);
        assert(be_bytes(x, s.len()) =~= s);
        lemma_pow2_adds(8 * init.len(), 8);
        lemma2_to64();
        assert(8 * s.len() == 8 * init.len() + 8) by (nonlinear_arith)
            requires
                s.len() == init.len() + 1,
        ;
        let p = pow2(8 * init.len()) as int;
        assert(be_value(init) * 256 + s.last() < p * 256) by (nonlinear_arith)
            requires
                0 <= be_value(init) < p,
                s.last() < 256,
        ;
    }
}

/// The bytes of a number below `2^(8n)` denote that number.
pub proof fn lemma_value_of_be_bytes(v: int, n: nat)
    requires
        0 <= v < pow2(8 * n),
    ensures
        be_value(be_bytes(v, n)) == v,
        be_bytes(v, n).len() == n,
    decreases n,
{
    lemma2_to64();
    if n > 0 {
        lemma_mod_bound(v, 256);
        lemma_pow2_adds(8 * (n - 1) as nat, 8);
        lemma2_to64();
        assert(8 * n == 8 * (n - 1) as nat + 8) by (nonlinear_arith)
            requires
                n > 0,
        ;
        let p = pow2(8 * (n - 1) as nat) as int;
        lemma_pow2_pos(8 * (n - 1) as nat);
        lemma_fundamental_div_mod(v, 256);
        assert(v / 256 < p) by (nonlinear_arith)
            requires
                0 <= v < p * 256,
                v == 256 * (v / 256) + v % 256,
                0 <= v % 256 < 256,
        ;
        lemma_div_pos_is_pos(v, 256);
        lemma_value_of_be_bytes(v / 256, (n - 1) as nat);
        let b = be_bytes(v, n);
        assert(b.drop_last() =~= be_bytes(v / 256, (n - 1) as nat));
    }
}

/// Fields that fit their widths pack into a number of `total_bits` bits.
pub proof fn lemma_pack_bound(values: Seq<u64>, widths: Seq<u8>)
    requires
        fields_fit(values, widths),
    ensures
        0 <= pack(values, widths) < pow2(total_bits(widths)),
    decreases widths.len(),
{
    lemma2_to64();
    if widths.len() > 0 {
        let vi = values.drop_last();
        let wi = widths.drop_last();
        assert(fields_fit(vi, wi)) by {
            assert forall|i: int| 0 <= i < vi.len() implies vi[i] < pow2(wi[i] as nat) by {
                assert(vi[i] == values[i]);
            }
        }
        lemma_pack_bound(vi, wi);
        let w = widths.last() as nat;
        lemma_pow2_adds(total_bits(wi), w);
        let a = pack(vi, wi);
        let p = pow2(total_bits(wi)) as int;
        let q = pow2(w) as int;
        assert(values.last() < q) by {
            assert(values.last() == values[values.len() - 1]);
        }
        assert(0 <= a * q + values.last() < p * q) by (nonlinear_arith)
            requires
                0 <= a < p,
                0 <= values.last() < q,
        ;
    }
}

/// Unpacking a packed number gives back its fields.
pub proof fn lemma_unpack_pack(values: Seq<u64>, widths: Seq<u8>)
    requires
        fields_fit(values, widths),
    ensures
        unpack(pack(values, widths), widths) == values,
    decreases widths.len(),
{
    if widths.len() > 0 {
        let vi = values.drop_last();
        let wi = widths.drop_last();
        assert(fields_fit(vi, wi)) by {
            assert forall|i: int| 0 <= i < vi.len() implies vi[i] < pow2(wi[i] as nat) by {
                assert(vi[i] == values[i]);
            }
        }
        lemma_unpack_pack(vi, wi);
        let q = pow2(widths.last() as nat) as int;
        lemma_pow2_pos(widths.last() as nat);
        assert(values.last() < q) by {
            assert(values.last() == values[values.len() - 1]);
        }
        lemma_fundamental_div_mod_converse(
            pack(values, widths),
            q,
            pack(vi, wi),
            values.last() as int,
        );
        assert(unpack(pack(values, widths), widths) =~= values);
    }
}

/// Unpacking the bytes of packed fields gives back the fields.
pub proof fn lemma_unpacked_packed(values: Seq<u64>, widths: Seq<u8>, nbytes: nat)
    requires
        valid_layout(widths, nbytes),
        fields_fit(values, widths),
    ensures
        unpacked_fields(packed_bytes(values, widths, nbytes), widths) == values,
{
    let t = total_bits(widths);
    let pad = padding_bits(widths, nbytes);
    let p = pack(values, widths);
    lemma_pack_bound(values, widths);
    lemma_pow2_adds(t, pad);
    lemma_pow2_pos(pad);
    assert(t + pad == 8 * nbytes);
    let m = pow2(pad) as int;
    let x = p * m;
    assert(0 <= x < pow2(8 * nbytes)) by (nonlinear_arith)
        requires
            0 <= p < pow2(t),
            m > 0,
            pow2(8 * nbytes) == pow2(t) * m,
            x == p * m,
    ;
    lemma_value_of_be_bytes(x, nbytes);
    lemma_fundamental_div_mod_converse(x, m, p, 0);
    lemma_unpack_pack(values, widths);
}

/// `2^s` for a shift below 64.
fn pow2_u64(s: u64) -> (r: u64)
    requires
        s < 64,
    ensures
        r == pow2(s as nat),
        r > 0,
{
    proof {
        lemma_u64_pow2_no_overflow(s as nat);
        lemma_u64_shl_is_mul(1, s);
    }
    1u64 << s
}

/// The widths of a prefix of a layout take no more bits than the layout.
proof fn lemma_total_bits_prefix(widths: Seq<u8>, i: int)
    requires
        0 <= i <= widths.len(),
    ensures
        total_bits(widths.take(i)) <= total_bits(widths),
    decreases widths.len(),
{
    if i < widths.len() {
        lemma_total_bits_prefix(widths.drop_last(), i);
        assert(widths.drop_last().take(i) =~= widths.take(i));
    } else {
        assert(widths.take(i) =~= widths);
    }
}

/// One step of the writer: a byte leaves the top of the accumulator.
proof fn lemma_emit_byte(e: int, acc: int, nbits: nat, b: int, rest: int, d: int)
    requires
        nbits >= 8,
        d == pow2((nbits - 8) as nat),
        0 <= acc < pow2(nbits),
        b == acc / d,
        rest == acc % d,
    ensures
        0 <= b < 256,
        0 <= rest < d,
        e * pow2(nbits) + acc == (e * 256 + b) * d + rest,
{
    lemma_pow2_adds((nbits - 8) as nat, 8);
    lemma2_to64();
    assert(pow2(nbits) == 256 * d) by {
        assert(((nbits - 8) as nat + 8) == nbits);
    }
    lemma_pow2_pos((nbits - 8) as nat);
    lemma_fundamental_div_mod(acc, d);
    lemma_mod_bound(acc, d);
    lemma_div_pos_is_pos(acc, d);
    assert(b < 256) by (nonlinear_arith)
        requires
            acc == d * b + rest,
            0 <= rest,
            acc < 256 * d,
            d > 0,
    ;
    assert(e * pow2(nbits) + acc == (e * 256 + b) * d + rest) by (nonlinear_arith)
        requires
            pow2(nbits) == 256 * d,
            acc == d * b + rest,
    ;
}

proof fn lemma_mod_bound(x: int, d: int)
    requires
        d > 0,
        x >= 0,
    ensures
        0 <= x % d < d,
{
    lemma_mod_pos_bound(x, d);
}

/// The bytes of a frame of `nbytes` bytes that holds `values` at `widths`,
/// first field most significant, padding zero.
pub fn pack_fields(values: &Vec<u64>, widths: &Vec<u8>, nbytes: usize) -> (r: Vec<u8>)
    requires
        valid_layout(widths@, nbytes as nat),
        fields_fit(values@, widths@),
    ensures
        r@ == packed_bytes(values@, widths@, nbytes as nat),
        r@.len() == nbytes,
{
    let mut out: Vec<u8> = Vec::new();
    let mut acc: u64 = 0;
    let mut nbits: u64 = 0;
    let mut i: usize = 0;
    proof {
        assert(values@.take(0) =~= Seq::<u64>::empty());
        assert(widths@.take(0) =~= Seq::<u8>::empty());
        lemma2_to64();
    }
    while i < widths.len()
        invariant
            valid_layout(widths@, nbytes as nat),
            fields_fit(values@, widths@),
            0 <= i <= widths.len(),
            nbits < 8,
            acc < pow2(nbits as nat),
            be_value(out@) * pow2(nbits as nat) + acc == pack(
                values@.take(i as int),
                widths@.take(i as int),
            ),
            8 * out@.len() + nbits == total_bits(widths@.take(i as int)),
        decreases widths.len() - i,
    {
        let w = widths[i];
        let v = values[i];
        let q = pow2_u64(w as u64);
        proof {
            lemma_take_last(values@, i as int);
            lemma_take_last(widths@, i as int);
            assert(1 <= w <= 32);
            assert(v < q);
            lemma_pow2_adds(nbits as nat, w as nat);
            lemma_u64_pow2_no_overflow(32);
            if w < 32 {
                lemma_pow2_strictly_increases(w as nat, 32);
            }
            lemma_pow2_strictly_increases(nbits as nat, 8);
            lemma2_to64();
            assert(acc * q + v < pow2(nbits as nat) * q) by (nonlinear_arith)
                requires
                    acc < pow2(nbits as nat),
                    v < q,
            ;
            assert(pow2(nbits as nat) * q <= 256 * 0x1_0000_0000) by (nonlinear_arith)
                requires
                    pow2(nbits as nat) < 256,
                    q <= 0x1_0000_0000,
            ;
            let e = be_value(out@);
            assert(e * pow2((nbits + w) as nat) + (acc * q + v) == (e * pow2(nbits as nat) + acc)
                * q + v) by (nonlinear_arith)
                requires
                    pow2((nbits + w) as nat) == pow2(nbits as nat) * q,
            ;
        }
        acc = acc * q + v;
        nbits = nbits + w as u64;
        while nbits >= 8
            invariant
                nbits < 8 + 40,
                acc < pow2(nbits as nat),
                be_value(out@) * pow2(nbits as nat) + acc == pack(
                    values@.take(i + 1),
                    widths@.take(i + 1),
                ),
                8 * out@.len() + nbits == total_bits(widths@.take(i + 1)),
            decreases nbits,
        {
            let d = pow2_u64(nbits - 8);
            let b = acc / d;
            let rest = acc % d;
            proof {
                lemma_emit_byte(be_value(out@), acc as int, nbits as nat, b as int, rest as int, d as int);
            }
            let ghost old_out = out@;
            out.push(b as u8);
            proof {
                assert(out@.drop_last() == old_out);
            }
            acc = rest;
            nbits = nbits - 8;
        }
        i = i + 1;
    }
    proof {
        assert(values@.take(i as int) =~= values@);
        assert(widths@.take(i as int) =~= widths@);
    }
    let ghost packed = pack(values@, widths@);
    if nbits > 0 {
        let pad = 8 - nbits;
        let m = pow2_u64(pad);
        proof {
            lemma_pow2_adds(nbits as nat, pad as nat);
            lemma2_to64();
            assert(pow2(nbits as nat) * m == 256);
            assert(acc * m < 256) by (nonlinear_arith)
                requires
                    acc < pow2(nbits as nat),
                    pow2(nbits as nat) * m == 256,
            ;
            let e = be_value(out@);
            assert((e * pow2(nbits as nat) + acc) * m == e * 256 + acc * m) by (nonlinear_arith)
                requires
                    pow2(nbits as nat) * m == 256,
            ;
        }
        let ghost old_out = out@;
        out.push((acc * m) as u8);
        proof {
            assert(out@.drop_last() == old_out);
            assert(padding_bits(widths@, nbytes as nat) == pad);
            assert(be_value(out@) == be_value(old_out) * 256 + acc * m);
            assert(be_value(out@) == packed * m);
            assert(out@.len() == nbytes);
        }
    } else {
        proof {
            lemma_pow2_pos(0);
            assert(pow2(0) == 1) by {
                lemma2_to64();
            }
            assert(padding_bits(widths@, nbytes as nat) == 0);
            assert(pow2(nbits as nat) == 1);
            assert(acc == 0);
            assert(be_value(out@) * 1 == be_value(out@));
            assert(be_value(out@) == packed * 1);
            assert(out@.len() == nbytes);
        }
    }
    proof {
        lemma_be_bytes_of_value(out@);
    }
    out
}

/// The fields of the given widths that a frame holds, first field taken from
/// the most significant bits; the padding bits are ignored.
pub fn unpack_fields(bytes: &[u8], widths: &Vec<u8>) -> (r: Vec<u64>)
    requires
        valid_layout(widths@, bytes@.len()),
    ensures
        r@ == unpacked_fields(bytes@, widths@),
        fields_fit(r@, widths@),
{
    let mut out: Vec<u64> = Vec::new();
    let mut acc: u64 = 0;
    let mut nbits: u64 = 0;
    let mut idx: usize = 0;
    let mut i: usize = 0;
    proof {
        assert(bytes@.take(0) =~= Seq::<u8>::empty());
        assert(widths@.take(0) =~= Seq::<u8>::empty());
        lemma2_to64();
    }
    while i < widths.len()
        invariant
            valid_layout(widths@, bytes@.len()),
            0 <= i <= widths.len(),
            out@.len() == i,
            fields_fit(out@, widths@.take(i as int)),
            nbits < 8,
            acc < pow2(nbits as nat),
            idx <= bytes@.len(),
            be_value(bytes@.take(idx as int)) == pack(out@, widths@.take(i as int)) * pow2(
                nbits as nat,
            ) + acc,
            8 * idx == total_bits(widths@.take(i as int)) + nbits,
        decreases widths.len() - i,
    {
        let w = widths[i];
        proof {
            lemma_take_last(widths@, i as int);
            lemma_total_bits_prefix(widths@, i + 1);
            assert(1 <= w <= 32);
        }
        while nbits < w as u64
            invariant
                valid_layout(widths@, bytes@.len()),
                i < widths.len(),
                w == widths@[i as int],
                1 <= w <= 32,
                total_bits(widths@.take(i + 1)) == total_bits(widths@.take(i as int)) + w,
                total_bits(widths@.take(i + 1)) <= total_bits(widths@),
                nbits < w + 8,
                acc < pow2(nbits as nat),
                idx <= bytes@.len(),
                be_value(bytes@.take(idx as int)) == pack(out@, widths@.take(i as int)) * pow2(
                    nbits as nat,
                ) + acc,
                8 * idx == total_bits(widths@.take(i as int)) + nbits,
            decreases w + 8 - nbits,
        {
            let b = bytes[idx];
            proof {
                lemma_take_last(bytes@, idx as int);
                lemma_pow2_adds(nbits as nat, 8);
                lemma2_to64();
                lemma_pow2_strictly_increases(nbits as nat, 40);
                lemma_u64_pow2_no_overflow(48);
                lemma_pow2_adds(40, 8);
                let pk = pack(out@, widths@.take(i as int));
                assert((pk * pow2(nbits as nat) + acc) * 256 + b == pk * pow2((nbits + 8) as nat) + (
                acc * 256 + b)) by (nonlinear_arith)
                    requires
                        pow2((nbits + 8) as nat) == pow2(nbits as nat) * 256,
                ;
                assert(acc * 256 + b < pow2((nbits + 8) as nat)) by (nonlinear_arith)
                    requires
                        acc < pow2(nbits as nat),
                        b < 256,
                        pow2((nbits + 8) as nat) == pow2(nbits as nat) * 256,
                ;
                if nbits + 8 < 48 {
                    lemma_pow2_strictly_increases((nbits + 8) as nat, 48);
                }
            }
            acc = acc * 256 + b as u64;
            idx = idx + 1;
            nbits = nbits + 8;
        }
        let d = pow2_u64(nbits - w as u64);
        let v = acc / d;
        let rest = acc % d;
        proof {
            let pk = pack(out@, widths@.take(i as int));
            let q = pow2(w as nat) as int;
            lemma_pow2_adds(w as nat, (nbits - w) as nat);
            assert(pow2(nbits as nat) == q * d) by {
                assert((w + (nbits - w)) as nat == nbits as nat);
            }
            lemma_pow2_pos(w as nat);
            lemma_fundamental_div_mod(acc as int, d as int);
            lemma_mod_bound(acc as int, d as int);
            lemma_div_pos_is_pos(acc as int, d as int);
            assert(v < q) by (nonlinear_arith)
                requires
                    acc == d * v + rest,
                    0 <= rest,
                    acc < q * d,
                    d > 0,
            ;
            assert(pk * pow2(nbits as nat) + acc == (pk * q + v) * d + rest) by (nonlinear_arith)
                requires
                    pow2(nbits as nat) == q * d,
                    acc == d * v + rest,
            ;
        }
        let ghost old_out = out@;
        out.push(v);
        proof {
            assert(out@.drop_last() == old_out);
            assert(out@.last() == v);
            assert(fields_fit(out@, widths@.take(i + 1))) by {
                assert forall|j: int| 0 <= j < out@.len() implies out@[j] < pow2(
                    widths@.take(i + 1)[j] as nat,
                ) by {
                    if j < i {
                        assert(out@[j] == old_out[j]);
                        assert(widths@.take(i + 1)[j] == widths@.take(i as int)[j]);
                    }
                }
            }
        }
        acc = rest;
        nbits = nbits - w as u64;
        i = i + 1;
    }
    proof {
        assert(widths@.take(i as int) =~= widths@);
        assert(idx == bytes@.len());
        assert(bytes@.take(idx as int) =~= bytes@);
        let pk = pack(out@, widths@);
        assert(padding_bits(widths@, bytes@.len()) == nbits);
        lemma_pow2_pos(nbits as nat);
        lemma_fundamental_div_mod_converse(
            be_value(bytes@),
            pow2(nbits as nat) as int,
            pk,
            acc as int,
        );
        lemma_unpack_pack(out@, widths@);
    }
    out
}

} // verus!
