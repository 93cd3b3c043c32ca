//! Exact binary fixed-point numbers.
use vstd::prelude::*;
use vstd::arithmetic::div_mod::lemma_fundamental_div_mod;
use vstd::arithmetic::div_mod::lemma_fundamental_div_mod_converse;
use vstd::arithmetic::div_mod::lemma_mod_pos_bound;
use crate::scalar::Scalar;
use crate::scalar::Approx;

verus! {

/// Number of fractional bits of a [`Fixed`].
pub const FRAC_BITS: usize = 32;

/// The raw value that stands for the number one: two to the power `FRAC_BITS`.
pub const SCALE: i64 = 0x1_0000_0000;

/// A number with 31 integer and 32 fractional bits: `raw / SCALE`.
///
/// Sums and differences are exact, products and quotients are rounded down
/// to a multiple of `1 / SCALE`, and every result that leaves the range of the
/// type stops at the nearest end of it.
#[derive(Clone, Copy, Debug)]
pub struct Fixed {
    pub raw: i64,
}

/// The value nearest to `v` that a raw field can hold.
pub open spec fn clamp(v: int) -> i64 {
    if v < i64::MIN {
        i64::MIN
    } else if v > i64::MAX {
        i64::MAX
    } else {
        v as i64
    }
}

/// The quotient of `a` by `b`, rounded down in magnitude-preserving fashion:
/// the floor of `a / b` where `b` is positive, the floor of `(-a) / (-b)` where
/// it is negative. Division by zero yields the end of the range on the side
/// of `a`.
pub open spec fn quotient(a: int, b: int) -> int {
    if b > 0 {
        a / b
    } else if b < 0 {
        (-a) / (-b)
    } else if a > 0 {
        i64::MAX as int
    } else if a < 0 {
        i64::MIN as int
    } else {
        0
    }
}

/// Brings a wide intermediate result back into range.
fn saturate(v: i128) -> (r: i64)
    ensures
        r == clamp(v as int),
{
    if v < i64::MIN as i128 {
        i64::MIN
    } else if v > i64::MAX as i128 {
        i64::MAX
    } else {
        v as i64
    }
}

/// The floor of `a / b` for a positive divisor.
fn floor_div(a: i128, b: i128) -> (q: i128)
    requires
        0 < b <= 0x1_0000_0000_0000_0000,
        -0x4000_0000_0000_0000_0000_0000_0000_0000 <= a <= 0x4000_0000_0000_0000_0000_0000_0000_0000,
    ensures
        q == (a as int) / (b as int),
{
    if a >= 0 {
        a / b
    } else {
        let m: i128 = -a;
        let up: i128 = (m + b - 1) / b;
        proof {
            let n = (m + b - 1) as int;
            let d = b as int;
            lemma_fundamental_div_mod(n, d);
            lemma_mod_pos_bound(n, d);
            let s = n % d;
            assert(n == d * (n / d) + s);
            assert(a as int == (-(n / d)) * d + (d - 1 - s)) by (nonlinear_arith)
                requires
                    n == d * (n / d) + s,
                    n == -(a as int) + d - 1,
            ;
            lemma_fundamental_div_mod_converse(a as int, d, -(n / d), d - 1 - s);
            assert(0 <= n / d <= n) by (nonlinear_arith)
                requires
                    n == d * (n / d) + s,
                    0 <= s < d,
                    n >= 0,
                    d > 0,
            ;
        }
        -up
    }
}

impl Fixed {
    /// The number `raw / SCALE`.
    pub fn from_raw(raw: i64) -> (r: Fixed)
        ensures
            r.raw == raw,
    {
        Fixed { raw }
    }

    /// The raw value `self * SCALE`.
    pub fn raw(&self) -> (r: i64)
        ensures
            r == self.raw,
    {
        self.raw
    }
}

impl Scalar for Fixed {
    open spec fn from_u32_spec(n: u32) -> Self {
        Fixed { raw: clamp(n * SCALE) }
    }

    open spec fn add_spec(self, rhs: Self) -> Self {
        Fixed { raw: clamp(self.raw + rhs.raw) }
    }

    open spec fn sub_spec(self, rhs: Self) -> Self {
        Fixed { raw: clamp(self.raw - rhs.raw) }
    }

    open spec fn mul_spec(self, rhs: Self) -> Self {
        Fixed { raw: clamp((self.raw * rhs.raw) / (SCALE as int)) }
    }

    open spec fn div_spec(self, rhs: Self) -> Self {
        Fixed { raw: clamp(quotient(self.raw * SCALE, rhs.raw as int)) }
    }

    open spec fn neg_spec(self) -> Self {
        Fixed { raw: clamp(-self.raw) }
    }

    open spec fn scale_spec(self, num: u32, den: u32) -> Self {
        Fixed { raw: clamp((self.raw * num) / (den as int)) }
    }

    open spec fn lt_spec(self, rhs: Self) -> bool {
        self.raw < rhs.raw
    }

    open spec fn same_spec(self, rhs: Self) -> bool {
        self.raw == rhs.raw
    }

    open spec fn prec_spec(self) -> usize {
        FRAC_BITS
    }

    open spec fn with_prec_spec(self, bits: usize) -> Option<Self> {
        if bits == FRAC_BITS {
            Some(self)
        } else {
            None
        }
    }

    fn from_u32(n: u32) -> (r: Self) {
        assert(n * SCALE == (n as i128) * (SCALE as i128));
        Fixed { raw: saturate(n as i128 * SCALE as i128) }
    }

    fn add(&self, rhs: &Self) -> (r: Self) {
        Fixed { raw: saturate(self.raw as i128 + rhs.raw as i128) }
    }

    fn sub(&self, rhs: &Self) -> (r: Self) {
        Fixed { raw: saturate(self.raw as i128 - rhs.raw as i128) }
    }

    fn mul(&self, rhs: &Self) -> (r: Self) {
        let a = self.raw as i128;
        let b = rhs.raw as i128;
        assert(-0x4000_0000_0000_0000_0000_0000_0000_0000 <= a * b
            <= 0x4000_0000_0000_0000_0000_0000_0000_0000) by (nonlinear_arith)
            requires
                -0x8000_0000_0000_0000 <= a <= 0x8000_0000_0000_0000,
                -0x8000_0000_0000_0000 <= b <= 0x8000_0000_0000_0000,
        ;
        Fixed { raw: saturate(floor_div(a * b, SCALE as i128)) }
    }

    fn div(&self, rhs: &Self) -> (r: Self) {
        let a = self.raw as i128;
        let b = rhs.raw as i128;
        let one = SCALE as i128;
        assert(-0x8000_0000_0000_0000_0000_0000 <= a * one <= 0x8000_0000_0000_0000_0000_0000
            && (-a) * one == -(a * one)) by (nonlinear_arith)
            requires
                -0x8000_0000_0000_0000 <= a <= 0x8000_0000_0000_0000,
                one == 0x1_0000_0000,
        ;
        if b > 0 {
            Fixed { raw: saturate(floor_div(a * one, b)) }
        } else if b < 0 {
            Fixed { raw: saturate(floor_div((-a) * one, -b)) }
        } else if a > 0 {
            Fixed { raw: i64::MAX }
        } else if a < 0 {
            Fixed { raw: i64::MIN }
        } else {
            Fixed { raw: 0 }
        }
    }

    fn neg(&self) -> (r: Self) {
        Fixed { raw: saturate(-(self.raw as i128)) }
    }

    fn scale(&self, num: u32, den: u32) -> (r: Self) {
        let a = self.raw as i128;
        assert(-0x4000_0000_0000_0000_0000_0000_0000_0000 <= a * (num as i128)
            <= 0x4000_0000_0000_0000_0000_0000_0000_0000) by (nonlinear_arith)
            requires
                -0x8000_0000_0000_0000 <= a <= 0x8000_0000_0000_0000,
                0 <= num <= 0x1_0000_0000,
        ;
        Fixed { raw: saturate(floor_div(a * (num as i128), den as i128)) }
    }

    fn lt(&self, rhs: &Self) -> (b: bool) {
        self.raw < rhs.raw
    }

    fn same(&self, rhs: &Self) -> (b: bool) {
        self.raw == rhs.raw
    }

    fn prec(&self) -> (bits: usize) {
        FRAC_BITS
    }

    fn with_prec(&self, bits: usize) -> (r: Option<Self>) {
        if bits == FRAC_BITS {
            Some(*self)
        } else {
            None
        }
    }

    fn dup(&self) -> (r: Self) {
        *self
    }
}

/// A fixed-point number is its own companion: narrowing and widening change
/// nothing.
impl Approx for Fixed {
    type Low = Fixed;

    open spec fn narrow_spec(self) -> Fixed {
        self
    }

    open spec fn widen_spec(low: Fixed) -> Fixed {
        low
    }

    fn narrow(&self) -> (r: Fixed) {
        *self
    }

    fn widen(low: &Fixed) -> (r: Fixed) {
        *low
    }
}

} // verus!
