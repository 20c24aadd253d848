//! RGB colors with field-wise arithmetic and the quantized 8-bit view used
//! by the raster export. Channels are unconstrained scalars: intermediate
//! algebraic results may leave [0, 1] or go negative; only `as_rgb` clamps.

use crate::fixed::{fits, prod, prod_wide, Fixed, SCALE};
use vstd::prelude::*;

verus! {

#[derive(Debug, Clone, Copy, PartialEq, Eq, Structural)]
pub struct Color {
    pub red: Fixed,
    pub green: Fixed,
    pub blue: Fixed,
}

/// `raw * 255 / SCALE`, rounded half away from zero: the integer nearest to
/// 255 times the channel value.
pub open spec fn round255(raw: int) -> int {
    let p = raw * 255;
    if p >= 0 {
        (p + SCALE / 2) / (SCALE as int)
    } else {
        -((-p + SCALE / 2) / (SCALE as int))
    }
}

/// Quantized channel: `round(channel * 255)` clamped into 0..=255. The
/// clamp at 0 makes negative channels read as 0 rather than wrapping, the
/// same end value the saturating float-to-integer conversion would give.
pub open spec fn quant(raw: int) -> int {
    let r = round255(raw);
    if r < 0 {
        0
    } else if r > 255 {
        255
    } else {
        r
    }
}

/// Quantize one channel. Total: every scalar has a quantized value.
fn quant_channel(c: Fixed) -> (r: usize)
    ensures
        r == quant(c.raw as int),
{
    let p: i128 = (c.raw as i128) * 255;
    let half: i128 = (SCALE as i128) / 2;
    let q: i128 = if p >= 0 {
        ((p + half) as u128 / (SCALE as u128)) as i128
    } else {
        -(((-p + half) as u128 / (SCALE as u128)) as i128)
    };
    if q < 0 {
        0
    } else if q > 255 {
        255
    } else {
        q as usize
    }
}

impl Color {
    pub fn new(red: Fixed, green: Fixed, blue: Fixed) -> (r: Color)
        ensures
            r == (Color { red, green, blue }),
    {
        Color { red, green, blue }
    }

    /// The color as a clamped 8-bit-equivalent integer triple.
    pub fn as_rgb(&self) -> (r: (usize, usize, usize))
        ensures
            r.0 == quant(self.red.raw as int),
            r.1 == quant(self.green.raw as int),
            r.2 == quant(self.blue.raw as int),
            0 <= r.0 <= 255,
            0 <= r.1 <= 255,
            0 <= r.2 <= 255,
    {
        (quant_channel(self.red), quant_channel(self.green), quant_channel(self.blue))
    }

    /// Field-wise exact sum.
    pub fn add(self, other: Color) -> (r: Color)
        requires
            fits(self.red.raw + other.red.raw),
            fits(self.green.raw + other.green.raw),
            fits(self.blue.raw + other.blue.raw),
        ensures
            r.red.raw == self.red.raw + other.red.raw,
            r.green.raw == self.green.raw + other.green.raw,
            r.blue.raw == self.blue.raw + other.blue.raw,
    {
        Color {
            red: self.red.add(other.red),
            green: self.green.add(other.green),
            blue: self.blue.add(other.blue),
        }
    }

    /// Field-wise exact difference.
    pub fn sub(self, other: Color) -> (r: Color)
        requires
            fits(self.red.raw - other.red.raw),
            fits(self.green.raw - other.green.raw),
            fits(self.blue.raw - other.blue.raw),
        ensures
            r.red.raw == self.red.raw - other.red.raw,
            r.green.raw == self.green.raw - other.green.raw,
            r.blue.raw == self.blue.raw - other.blue.raw,
    {
        Color {
            red: self.red.sub(other.red),
            green: self.green.sub(other.green),
            blue: self.blue.sub(other.blue),
        }
    }

    /// Uniform field-wise scaling.
    pub fn scale(self, scalar: Fixed) -> (r: Color)
        requires
            fits(prod(self.red.raw as int, scalar.raw as int)),
            fits(prod(self.green.raw as int, scalar.raw as int)),
            fits(prod(self.blue.raw as int, scalar.raw as int)),
        ensures
            r.red.raw == prod(self.red.raw as int, scalar.raw as int),
            r.green.raw == prod(self.green.raw as int, scalar.raw as int),
            r.blue.raw == prod(self.blue.raw as int, scalar.raw as int),
    {
        Color {
            red: self.red.mul(scalar),
            green: self.green.mul(scalar),
            blue: self.blue.mul(scalar),
        }
    }

    /// Hadamard (component-wise) product: light filtering and blending.
    pub fn hadamard(self, other: Color) -> (r: Color)
        requires
            fits(prod(self.red.raw as int, other.red.raw as int)),
            fits(prod(self.green.raw as int, other.green.raw as int)),
            fits(prod(self.blue.raw as int, other.blue.raw as int)),
        ensures
            r.red.raw == prod(self.red.raw as int, other.red.raw as int),
            r.green.raw == prod(self.green.raw as int, other.green.raw as int),
            r.blue.raw == prod(self.blue.raw as int, other.blue.raw as int),
    {
        Color {
            red: self.red.mul(other.red),
            green: self.green.mul(other.green),
            blue: self.blue.mul(other.blue),
        }
    }
}

} // verus!
