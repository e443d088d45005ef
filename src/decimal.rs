//! A fixed-point decimal number, `mantissa / 10^scale`, with the rounding that
//! the unit conversions use.
use vstd::prelude::*;

verus! {

/// The largest scale (number of fractional decimal digits) a `Decimal` holds.
pub const MAX_SCALE: u32 = 28;

/// `10^e` as an integer.
pub open spec fn pow10(e: nat) -> int
    decreases e,
{
    if e == 0 {
        1
    } else {
        10 * pow10((e - 1) as nat)
    }
}

pub proof fn lemma_pow10_positive(e: nat)
    ensures
        pow10(e) >= 1,
    decreases e,
{
    if e > 0 {
        lemma_pow10_positive((e - 1) as nat);
    }
}

pub proof fn lemma_pow10_adds(a: nat, b: nat)
    ensures
        pow10(a + b) == pow10(a) * pow10(b),
    decreases a,
{
    if a > 0 {
        lemma_pow10_adds((a - 1) as nat, b);
        assert(pow10(a + b) == 10 * pow10((a - 1 + b) as nat));
        assert(10 * (pow10((a - 1) as nat) * pow10(b)) == (10 * pow10((a - 1) as nat)) * pow10(b))
            by (nonlinear_arith);
    }
}

pub proof fn lemma_pow10_monotonic(a: nat, b: nat)
    requires
        a <= b,
    ensures
        pow10(a) <= pow10(b),
    decreases b,
{
    if a < b {
        lemma_pow10_monotonic(a, (b - 1) as nat);
        lemma_pow10_positive((b - 1) as nat);
    }
}

/// `10^e` for a scale `e`.
fn pow10_exec(e: u32) -> (r: i128)
    requires
        e <= MAX_SCALE,
    ensures
        r == pow10(e as nat),
        1 <= r <= 10000000000000000000000000000,
{
    let mut r: i128 = 1;
    let mut i: u32 = 0;
    proof {
        lemma_pow10_monotonic(e as nat, MAX_SCALE as nat);
        reveal_with_fuel(pow10, 29);
        assert(pow10(MAX_SCALE as nat) == 10000000000000000000000000000int);
    }
    while i < e
        invariant
            i <= e <= MAX_SCALE,
            r == pow10(i as nat),
            pow10(e as nat) <= 10000000000000000000000000000,
        decreases e - i,
    {
        proof {
            lemma_pow10_monotonic((i + 1) as nat, e as nat);
            lemma_pow10_positive(i as nat);
        }
        r = r * 10;
        i = i + 1;
    }
    proof {
        lemma_pow10_positive(e as nat);
    }
    r
}

/// Relies on rust_decimal's `Display` for `Decimal::new(mantissa, scale)`: the
/// text depends on the two numbers alone.
pub uninterp spec fn decimal_text(mantissa: int, scale: nat) -> Seq<char>;

/// Relies on `rust_decimal::Decimal::new` (which panics above scale 28) and its
/// `Display` impl.
#[verifier::external_body]
fn decimal_text_of(mantissa: i64, scale: u32) -> (r: String)
    requires
        scale <= MAX_SCALE,
    ensures
        r@ == decimal_text(mantissa as int, scale as nat),
{
    rust_decimal::Decimal::new(mantissa, scale).to_string()
}

/// The integer nearest to `n / d` for `d > 0`; a value exactly halfway
/// between two integers goes to the one farther from zero.
pub open spec fn round_half_away(n: int, d: int) -> int {
    if n >= 0 {
        (2 * n + d) / (2 * d)
    } else {
        -((2 * (-n) + d) / (2 * d))
    }
}

/// The unit count of a decimal `m / 10^s` that is multiplied by `k` and then
/// shifted by `c` units: `round(m * k / 10^s + c)`.
pub open spec fn units_of(m: int, s: nat, k: int, c: int) -> int {
    round_half_away(m * k + c * pow10(s), pow10(s))
}

/// A decimal number `mantissa / 10^scale`. Two decimals are equal when they
/// denote the same number, whatever their scales (`1.50 == 1.5`).
#[derive(Clone, Copy, Debug)]
pub struct Decimal {
    mantissa: i64,
    scale: u32,
}

impl Decimal {
    #[verifier::type_invariant]
    spec fn inv(self) -> bool {
        self.scale <= MAX_SCALE
    }

    pub closed spec fn spec_mantissa(self) -> int {
        self.mantissa as int
    }

    pub closed spec fn spec_scale(self) -> nat {
        self.scale as nat
    }

    /// Whether `self` and `other` denote the same number.
    pub open spec fn same_value(self, other: Decimal) -> bool {
        self.spec_mantissa() * pow10(other.spec_scale()) == other.spec_mantissa() * pow10(
            self.spec_scale(),
        )
    }

    /// Whether `self * k` is a whole number: the value lies on the quantum
    /// `1/k`.
    pub open spec fn on_quantum(self, k: int) -> bool {
        (self.spec_mantissa() * k) % pow10(self.spec_scale()) == 0
    }

    /// `round(self * k + c)`, the unit count for multiplier `k` and offset `c`.
    pub open spec fn units(self, k: int, c: int) -> int {
        units_of(self.spec_mantissa(), self.spec_scale(), k, c)
    }

    /// The decimal `mantissa / 10^scale`.
    pub fn new(mantissa: i64, scale: u32) -> (r: Decimal)
        requires
            scale <= MAX_SCALE,
        ensures
            r.spec_mantissa() == mantissa,
            r.spec_scale() == scale,
    {
        Decimal { mantissa, scale }
    }

    pub fn mantissa(&self) -> (r: i64)
        ensures
            r == self.spec_mantissa(),
    {
        self.mantissa
    }

    pub fn scale(&self) -> (r: u32)
        ensures
            r == self.spec_scale(),
            r <= MAX_SCALE,
    {
        proof {
            use_type_invariant(self);
        }
        self.scale
    }

    /// The decimal text of the number, with exactly `scale` fractional digits.
    pub fn to_string(&self) -> (r: String)
        ensures
            r@ == decimal_text(self.spec_mantissa(), self.spec_scale()),
    {
        proof {
            use_type_invariant(self);
        }
        decimal_text_of(self.mantissa, self.scale)
    }

    /// `round(self * k + c)`: the unit count of the number scaled by `k` and
    /// shifted by `c` units, halves rounded away from zero.
    pub fn scaled_units(&self, k: i64, c: i64) -> (r: i128)
        requires
            1 <= k <= 100_000,
            0 <= c <= 100_000_000,
        ensures
            r == self.units(k as int, c as int),
    {
        proof {
            use_type_invariant(self);
        }
        let p = pow10_exec(self.scale);
        let m = self.mantissa as i128;
        proof {
            assert(-0x8000_0000_0000_0000 * 100_000 <= m * k <= 0x7fff_ffff_ffff_ffff * 100_000)
                by (nonlinear_arith)
                requires
                    -0x8000_0000_0000_0000 <= m <= 0x7fff_ffff_ffff_ffff,
                    1 <= k <= 100_000,
            ;
            assert(0 <= c * p <= 100_000_000 * 10000000000000000000000000000) by (nonlinear_arith)
                requires
                    0 <= c <= 100_000_000,
                    1 <= p <= 10000000000000000000000000000,
            ;
        }
        let n: i128 = m * (k as i128) + (c as i128) * p;
        if n >= 0 {
            (2 * n + p) / (2 * p)
        } else {
            -((2 * (-n) + p) / (2 * p))
        }
    }
}

impl PartialEq for Decimal {
    fn eq(&self, other: &Decimal) -> (r: bool) {
        proof {
            use_type_invariant(self);
            use_type_invariant(other);
        }
        let a = self.mantissa as i128;
        let b = other.mantissa as i128;
        if self.scale <= other.scale {
            let p = pow10_exec(other.scale - self.scale);
            proof {
                lemma_same_value_shift(a as int, b as int, self.scale as nat, other.scale as nat);
            }
            match a.checked_mul(p) {
                Some(x) => x == b,
                None => false,
            }
        } else {
            let p = pow10_exec(self.scale - other.scale);
            proof {
                lemma_same_value_shift(b as int, a as int, other.scale as nat, self.scale as nat);
            }
            match b.checked_mul(p) {
                Some(x) => x == a,
                None => false,
            }
        }
    }
}

impl vstd::std_specs::cmp::PartialEqSpecImpl for Decimal {
    open spec fn obeys_eq_spec() -> bool {
        true
    }

    open spec fn eq_spec(&self, other: &Decimal) -> bool {
        self.same_value(*other)
    }
}

/// On its quantum a value converts without rounding: its unit count, less
/// the offset, is exactly `self * k`.
pub proof fn lemma_units_on_quantum(d: Decimal, k: int, c: int)
    requires
        d.on_quantum(k),
    ensures
        (d.units(k, c) - c) * pow10(d.spec_scale()) == d.spec_mantissa() * k,
{
    let p = pow10(d.spec_scale());
    lemma_pow10_positive(d.spec_scale());
    let mk = d.spec_mantissa() * k;
    let q = mk / p;
    assert(mk == q * p) by {
        vstd::arithmetic::div_mod::lemma_fundamental_div_mod(mk, p);
    }
    let n = mk + c * p;
    assert(n == (q + c) * p) by (nonlinear_arith)
        requires
            n == mk + c * p,
            mk == q * p,
    ;
    if n >= 0 {
        assert(2 * n + p == (q + c) * (2 * p) + p) by (nonlinear_arith)
            requires
                n == (q + c) * p,
        ;
        vstd::arithmetic::div_mod::lemma_fundamental_div_mod_converse(2 * n + p, 2 * p, q + c, p);
    } else {
        assert(2 * (-n) + p == (-(q + c)) * (2 * p) + p) by (nonlinear_arith)
            requires
                n == (q + c) * p,
        ;
        vstd::arithmetic::div_mod::lemma_fundamental_div_mod_converse(
            2 * (-n) + p,
            2 * p,
            -(q + c),
            p,
        );
    }
    assert(d.units(k, c) == q + c);
    assert((q + c - c) * p == q * p);
}

proof fn lemma_same_value_shift(a: int, b: int, s1: nat, s2: nat)
    requires
        s1 <= s2,
    ensures
        (a * pow10(s2) == b * pow10(s1)) <==> (a * pow10((s2 - s1) as nat) == b),
{
    let d = (s2 - s1) as nat;
    lemma_pow10_adds(s1, d);
    lemma_pow10_positive(s1);
    let q = pow10(s1);
    let r = pow10(d);
    assert(pow10(s2) == q * r);
    assert((a * (q * r) == b * q) <==> (a * r == b)) by (nonlinear_arith)
        requires
            q >= 1,
    ;
    assert(a * pow10(s2) == a * (q * r));
    assert(b * pow10(s1) == b * q);
}

} // verus!
