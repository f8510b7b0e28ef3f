//! Fixed-point numbers: an `i64` counting units of `1/SCALE`.
//!
//! All operations saturate at the `i64` range and divisions truncate toward
//! zero. The spec functions here give every operation its exact integer
//! meaning; the executable methods are proved to return exactly those values.

use vstd::prelude::*;

verus! {

/// Fixed-point units per whole unit: values carry six decimal places.
pub const SCALE: i64 = 1_000_000;

/// Clamp an unbounded integer into the `i64` range (saturating arithmetic).
pub open spec fn sat(v: int) -> int {
    if v > i64::MAX as int {
        i64::MAX as int
    } else if v < i64::MIN as int {
        i64::MIN as int
    } else {
        v
    }
}

/// Absolute value.
pub open spec fn abs_i(v: int) -> int {
    if v < 0 {
        -v
    } else {
        v
    }
}

/// Division truncating toward zero, as `/` behaves on machine integers.
pub open spec fn tdiv(a: int, b: int) -> int
    recommends
        b != 0,
{
    if b == 0 {
        0
    } else if (a < 0) != (b < 0) {
        -(abs_i(a) / abs_i(b))
    } else {
        abs_i(a) / abs_i(b)
    }
}

/// Fixed-point sum.
pub open spec fn fx_add_spec(a: int, b: int) -> int {
    sat(a + b)
}

/// Fixed-point difference.
pub open spec fn fx_sub_spec(a: int, b: int) -> int {
    sat(a - b)
}

/// Fixed-point product: the wide product rescaled by `SCALE`.
pub open spec fn fx_mul_spec(a: int, b: int) -> int {
    sat(tdiv(a * b, SCALE as int))
}

/// Fixed-point quotient: the dividend prescaled by `SCALE`.
pub open spec fn fx_div_spec(a: int, b: int) -> int
    recommends
        b != 0,
{
    sat(tdiv(a * (SCALE as int), b))
}

/// A fixed-point value divided by a positive count, truncating toward zero.
pub open spec fn fx_avg_spec(a: int, n: int) -> int
    recommends
        n > 0,
{
    tdiv(a, n)
}

/// The fixed-point image of an unsigned measurement.
pub open spec fn fx_of_u64(v: u64) -> int {
    sat((v as int) * (SCALE as int))
}

/// The fixed-point image of a signed whole number.
pub open spec fn fx_of_i64(v: i64) -> int {
    sat((v as int) * (SCALE as int))
}

/// Splits a product into its sign and the product of the magnitudes.
proof fn lemma_mul_parts(a: int, b: int, ma: int, mb: int)
    by (nonlinear_arith)
    requires
        ma == if a < 0 { -a } else { a },
        mb == if b < 0 { -b } else { b },
    ensures
        a * b == if (a < 0) != (b < 0) { -(ma * mb) } else { ma * mb },
        ma * mb >= 0,
{
}

/// Monotone bound on a product of non-negative factors.
pub proof fn lemma_mul_bound(ma: int, mb: int, ca: int, cb: int)
    by (nonlinear_arith)
    requires
        0 <= ma <= ca,
        0 <= mb <= cb,
    ensures
        ma * mb <= ca * cb,
{
}

/// Range of a product of a bounded factor and a non-negative bounded factor.
proof fn lemma_mul_range(a: int, b: int, ca: int, cb: int)
    by (nonlinear_arith)
    requires
        -ca <= a <= ca,
        0 <= b <= cb,
        0 <= ca,
    ensures
        -(ca * cb) <= a * b <= ca * cb,
{
}

/// A fixed-point number; `raw` counts units of `1/SCALE`.
#[derive(Clone, Copy, PartialEq, Eq, Structural, Debug)]
pub struct Fx {
    pub raw: i64,
}

/// The magnitude of a signed value, exactly `abs_i`.
fn abs_u128(a: i64) -> (r: u128)
    ensures
        r as int == abs_i(a as int),
{
    if a >= 0 {
        a as u128
    } else {
        (-(a as i128)) as u128
    }
}

/// Reassembles a sign and a magnitude into a saturated `i64`.
fn clamp_mag(neg: bool, mag: u128) -> (r: i64)
    ensures
        r as int == sat(if neg { -(mag as int) } else { mag as int }),
{
    if neg {
        if mag >= 0x8000_0000_0000_0000u128 {
            i64::MIN
        } else {
            -(mag as i64)
        }
    } else {
        if mag > i64::MAX as u128 {
            i64::MAX
        } else {
            mag as i64
        }
    }
}

impl Fx {
    /// The fixed-point image of a signed whole number, saturating.
    pub fn from_int(v: i64) -> (r: Fx)
        ensures
            r.raw as int == fx_of_i64(v),
    {
        proof {
            lemma_mul_range(v as int, SCALE as int, 0x8000_0000_0000_0000, 1_000_000);
        }
        let p: i128 = (v as i128) * (SCALE as i128);
        if p > i64::MAX as i128 {
            Fx { raw: i64::MAX }
        } else if p < i64::MIN as i128 {
            Fx { raw: i64::MIN }
        } else {
            Fx { raw: p as i64 }
        }
    }

    /// The fixed-point image of an unsigned measurement, saturating.
    pub fn from_u64(v: u64) -> (r: Fx)
        ensures
            r.raw as int == fx_of_u64(v),
    {
        proof {
            lemma_mul_bound(v as int, SCALE as int, 0xffff_ffff_ffff_ffff, 1_000_000);
        }
        let p: u128 = (v as u128) * (SCALE as u128);
        if p > i64::MAX as u128 {
            Fx { raw: i64::MAX }
        } else {
            Fx { raw: p as i64 }
        }
    }

    /// Saturating fixed-point addition.
    pub fn add(self, o: Fx) -> (r: Fx)
        ensures
            r.raw as int == fx_add_spec(self.raw as int, o.raw as int),
    {
        let s: i128 = self.raw as i128 + o.raw as i128;
        if s > i64::MAX as i128 {
            Fx { raw: i64::MAX }
        } else if s < i64::MIN as i128 {
            Fx { raw: i64::MIN }
        } else {
            Fx { raw: s as i64 }
        }
    }

    /// Saturating fixed-point subtraction.
    pub fn sub(self, o: Fx) -> (r: Fx)
        ensures
            r.raw as int == fx_sub_spec(self.raw as int, o.raw as int),
    {
        let s: i128 = self.raw as i128 - o.raw as i128;
        if s > i64::MAX as i128 {
            Fx { raw: i64::MAX }
        } else if s < i64::MIN as i128 {
            Fx { raw: i64::MIN }
        } else {
            Fx { raw: s as i64 }
        }
    }

    /// Saturating fixed-point multiplication, truncating toward zero.
    pub fn mul(self, o: Fx) -> (r: Fx)
        ensures
            r.raw as int == fx_mul_spec(self.raw as int, o.raw as int),
    {
        let a = self.raw;
        let b = o.raw;
        let neg = (a < 0) != (b < 0);
        let ma = abs_u128(a);
        let mb = abs_u128(b);
        proof {
            lemma_mul_parts(a as int, b as int, ma as int, mb as int);
            lemma_mul_bound(
                ma as int,
                mb as int,
                0x8000_0000_0000_0000,
                0x8000_0000_0000_0000,
            );
        }
        let prod: u128 = ma * mb;
        let q: u128 = prod / (SCALE as u128);
        let raw = clamp_mag(neg, q);
        proof {
            let p = (a as int) * (b as int);
            assert(abs_i(p) == prod as int);
            if p >= 0 {
                assert(tdiv(p, SCALE as int) == q as int);
            } else {
                assert(tdiv(p, SCALE as int) == -(q as int));
            }
        }
        Fx { raw }
    }

    /// Saturating fixed-point division, truncating toward zero.
    pub fn div(self, o: Fx) -> (r: Fx)
        requires
            o.raw != 0,
        ensures
            r.raw as int == fx_div_spec(self.raw as int, o.raw as int),
    {
        let a = self.raw;
        let b = o.raw;
        let neg = (a < 0) != (b < 0);
        let ma = abs_u128(a);
        let mb = abs_u128(b);
        proof {
            lemma_mul_parts(a as int, SCALE as int, ma as int, SCALE as int);
            lemma_mul_bound(ma as int, SCALE as int, 0x8000_0000_0000_0000, 1_000_000);
        }
        let num: u128 = ma * (SCALE as u128);
        let q: u128 = num / mb;
        let raw = clamp_mag(neg, q);
        proof {
            let p = (a as int) * (SCALE as int);
            assert(abs_i(p) == num as int);
            if p == 0 {
                assert(tdiv(p, b as int) == 0);
            } else {
                assert((p < 0) == (a < 0));
                assert(tdiv(p, b as int) == if neg { -(q as int) } else { q as int });
            }
        }
        Fx { raw }
    }

    /// Division of a fixed-point value by a positive count, truncating
    /// toward zero. The result never saturates: its magnitude is bounded by
    /// the dividend's.
    pub fn avg(self, n: usize) -> (r: Fx)
        requires
            n > 0,
        ensures
            r.raw as int == fx_avg_spec(self.raw as int, n as int),
    {
        let a = self.raw;
        let neg = a < 0;
        let ma = abs_u128(a);
        let q: u128 = ma / (n as u128);
        let raw = clamp_mag(neg, q);
        proof {
            if a as int >= 0 {
                assert(tdiv(a as int, n as int) == q as int);
            } else {
                assert(tdiv(a as int, n as int) == -(q as int));
            }
        }
        Fx { raw }
    }
}

} // verus!
