//! The scalar type of the kernel: an exact fixed-point number.
//!
//! A `Fixed` stores the value `raw / SCALE` with `raw: i64`, so sums and
//! differences are exact and a product is truncated toward zero to the
//! nearest representable value. Every operation states its result exactly
//! over the raw representation; operations that could overflow the
//! representation require the mathematical result to fit.

use vstd::prelude::*;

verus! {

/// Number of raw units in 1.0: scalars hold ten-thousandths exactly.
pub const SCALE: i64 = 10_000;

/// Exact fixed-point scalar; the represented value is `raw / SCALE`.
#[derive(Debug, Clone, Copy, PartialEq, Eq, Structural)]
pub struct Fixed {
    pub raw: i64,
}

/// Whether a mathematical integer is representable as an `i64` raw value.
pub open spec fn fits(v: int) -> bool {
    i64::MIN <= v <= i64::MAX
}

/// Quotient by `SCALE`, truncated toward zero (the rounding used by products).
pub open spec fn scale_down(p: int) -> int {
    if p >= 0 {
        p / (SCALE as int)
    } else {
        -((-p) / (SCALE as int))
    }
}

/// Raw value of the product of two scalars given by their raw values:
/// the exact product rescaled, truncated toward zero.
pub open spec fn prod(a: int, b: int) -> int {
    scale_down(a * b)
}

/// The product of representable scalars stays well inside `i128`: the wide
/// product is at most 2^126 in magnitude and the rescaled product at most
/// 2^113, so even a short sum of rescaled products cannot overflow.
pub proof fn lemma_prod_bound(a: int, b: int)
    requires
        fits(a),
        fits(b),
    ensures
        -0x4000_0000_0000_0000_0000_0000_0000_0000 <= a * b
            <= 0x4000_0000_0000_0000_0000_0000_0000_0000,
        -0x2_0000_0000_0000_0000_0000_0000_0000 <= prod(a, b)
            <= 0x2_0000_0000_0000_0000_0000_0000_0000,
{
    assert(-0x4000_0000_0000_0000_0000_0000_0000_0000 <= a * b
        <= 0x4000_0000_0000_0000_0000_0000_0000_0000) by (nonlinear_arith)
        requires
            -0x8000_0000_0000_0000 <= a <= 0x7fff_ffff_ffff_ffff,
            -0x8000_0000_0000_0000 <= b <= 0x7fff_ffff_ffff_ffff,
    ;
    let p = a * b;
    let big = 0x4000_0000_0000_0000_0000_0000_0000_0000;
    if p >= 0 {
        vstd::arithmetic::div_mod::lemma_div_is_ordered(p, big, SCALE as int);
        vstd::arithmetic::div_mod::lemma_div_pos_is_pos(p, SCALE as int);
    } else {
        vstd::arithmetic::div_mod::lemma_div_is_ordered(-p, big, SCALE as int);
        vstd::arithmetic::div_mod::lemma_div_pos_is_pos(-p, SCALE as int);
    }
}

/// 1 is a unit for the truncated product: multiplying by the raw value of
/// 1.0 rescales exactly and loses nothing.
pub proof fn lemma_prod_one(v: int)
    ensures
        prod(SCALE as int, v) == v,
        prod(v, SCALE as int) == v,
{
    let s = SCALE as int;
    assert(s * v == v * s) by (nonlinear_arith);
    vstd::arithmetic::div_mod::lemma_div_multiples_vanish(v, s);
    if v >= 0 {
        assert(s * v >= 0) by (nonlinear_arith)
            requires
                v >= 0,
                s > 0,
        ;
    } else {
        assert(s * v < 0) by (nonlinear_arith)
            requires
                v < 0,
                s > 0,
        ;
        assert(-(s * v) == s * (-v)) by (nonlinear_arith);
        vstd::arithmetic::div_mod::lemma_div_multiples_vanish(-v, s);
    }
}

/// 0 annihilates the truncated product.
pub proof fn lemma_prod_zero(v: int)
    ensures
        prod(0, v) == 0,
        prod(v, 0) == 0,
{
    assert(0 * v == 0) by (nonlinear_arith);
    assert(v * 0 == 0) by (nonlinear_arith);
}

/// Truncated product of two raw values, computed exactly in 128 bits.
/// Total: the wide result always fits `i128`.
pub(crate) fn prod_wide(a: i64, b: i64) -> (q: i128)
    ensures
        q == prod(a as int, b as int),
{
    proof {
        lemma_prod_bound(a as int, b as int);
    }
    let p: i128 = (a as i128) * (b as i128);
    if p >= 0 {
        let mag: u128 = p as u128;
        (mag / (SCALE as u128)) as i128
    } else {
        let mag: u128 = (-p) as u128;
        -((mag / (SCALE as u128)) as i128)
    }
}

impl Fixed {
    /// The scalar with the given raw value (`raw` ten-thousandths).
    pub fn from_raw(raw: i64) -> (r: Fixed)
        ensures
            r.raw == raw,
    {
        Fixed { raw }
    }

    /// The scalar equal to the integer `v`.
    pub fn from_int(v: i64) -> (r: Fixed)
        requires
            fits(v * SCALE),
        ensures
            r.raw == v * SCALE,
    {
        Fixed { raw: v * SCALE }
    }

    /// Exact sum.
    pub fn add(self, other: Fixed) -> (r: Fixed)
        requires
            fits(self.raw + other.raw),
        ensures
            r.raw == self.raw + other.raw,
    {
        Fixed { raw: self.raw + other.raw }
    }

    /// Exact difference.
    pub fn sub(self, other: Fixed) -> (r: Fixed)
        requires
            fits(self.raw - other.raw),
        ensures
            r.raw == self.raw - other.raw,
    {
        Fixed { raw: self.raw - other.raw }
    }

    /// Exact negation.
    pub fn neg(self) -> (r: Fixed)
        requires
            fits(-self.raw),
        ensures
            r.raw == -self.raw,
    {
        Fixed { raw: -self.raw }
    }

    /// Product, truncated toward zero to the nearest representable value.
    pub fn mul(self, other: Fixed) -> (r: Fixed)
        requires
            fits(prod(self.raw as int, other.raw as int)),
        ensures
            r.raw == prod(self.raw as int, other.raw as int),
    {
        let q = prod_wide(self.raw, other.raw);
        Fixed { raw: q as i64 }
    }
}

} // verus!
