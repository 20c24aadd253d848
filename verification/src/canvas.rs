//! The pixel raster: a fixed-size, row-major grid of colors indexed by
//! `(x, y)`, every pixel starting out black. Out-of-range coordinates are
//! excluded by precondition, preserving the fail-fast contract of indexed
//! access.

use crate::color::Color;
use crate::fixed::Fixed;
use vstd::arithmetic::mul::lemma_mul_inequality;
use vstd::prelude::*;

verus! {

#[derive(Debug)]
pub struct Canvas {
    pub width: usize,
    pub height: usize,
    pub pixels: Vec<Color>,
}

/// The color every fresh pixel holds.
pub open spec fn black() -> Color {
    Color { red: Fixed { raw: 0 }, green: Fixed { raw: 0 }, blue: Fixed { raw: 0 } }
}

impl Canvas {
    /// The backing buffer holds exactly width x height pixels.
    pub open spec fn wf(self) -> bool {
        self.pixels@.len() == self.width * self.height
    }

    /// The pixel in column `x` of row `y` (row-major layout).
    pub open spec fn pix(self, x: int, y: int) -> Color {
        self.pixels@[y * self.width + x]
    }

    /// A canvas of the given size with every pixel black.
    pub fn new(width: usize, height: usize) -> (r: Canvas)
        requires
            width * height <= usize::MAX,
        ensures
            r.wf(),
            r.width == width,
            r.height == height,
            forall|p: int| 0 <= p < r.pixels@.len() ==> r.pixels@[p] == black(),
    {
        let total: usize = width * height;
        let mut pixels: Vec<Color> = Vec::new();
        let mut i: usize = 0;
        while i < total
            invariant
                i <= total,
                pixels@.len() == i,
                forall|p: int| 0 <= p < i ==> pixels@[p] == black(),
            decreases total - i,
        {
            pixels.push(
                Color {
                    red: Fixed { raw: 0 },
                    green: Fixed { raw: 0 },
                    blue: Fixed { raw: 0 },
                },
            );
            i = i + 1;
        }
        Canvas { width, height, pixels }
    }
}

/// A pixel's position in the backing buffer, in bounds whenever the
/// coordinates are.
fn index(canvas: &Canvas, x: usize, y: usize) -> (idx: usize)
    requires
        canvas.wf(),
        x < canvas.width,
        y < canvas.height,
    ensures
        idx == y * canvas.width + x,
        idx < canvas.pixels@.len(),
{
    // The buffer length is a usize, so the index below cannot overflow.
    let _len = canvas.pixels.len();
    proof {
        lemma_mul_inequality(y as int + 1, canvas.height as int, canvas.width as int);
        assert((y + 1) * canvas.width == y * canvas.width + canvas.width) by (nonlinear_arith);
        assert(canvas.height * canvas.width == canvas.width * canvas.height) by (nonlinear_arith);
    }
    y * canvas.width + x
}

/// Read the pixel at `(x, y)`; out-of-range coordinates are excluded by
/// precondition rather than checked at run time.
pub fn pixel_at(canvas: &Canvas, x: usize, y: usize) -> (r: Color)
    requires
        canvas.wf(),
        x < canvas.width,
        y < canvas.height,
    ensures
        r == canvas.pix(x as int, y as int),
{
    let idx = index(canvas, x, y);
    canvas.pixels[idx]
}

/// Overwrite the pixel at `(x, y)`, leaving every other pixel unchanged.
pub fn write_pixel(canvas: &mut Canvas, x: usize, y: usize, color: Color)
    requires
        old(canvas).wf(),
        x < old(canvas).width,
        y < old(canvas).height,
    ensures
        final(canvas).width == old(canvas).width,
        final(canvas).height == old(canvas).height,
        final(canvas).pixels@ == old(canvas).pixels@.update(
            y * old(canvas).width + x,
            color,
        ),
        final(canvas).wf(),
{
    let idx = index(canvas, x, y);
    canvas.pixels[idx] = color;
}

/// Writing a pixel and reading the same coordinates back returns the
/// written color, and no other pixel moves.
pub proof fn lemma_write_then_read(c: Canvas, d: Canvas, x: int, y: int, color: Color)
    requires
        c.wf(),
        0 <= x < c.width,
        0 <= y < c.height,
        d.width == c.width,
        d.height == c.height,
        d.pixels@ == c.pixels@.update(y * c.width + x, color),
    ensures
        d.wf(),
        d.pix(x, y) == color,
        forall|x2: int, y2: int|
            0 <= x2 < c.width && 0 <= y2 < c.height && (x2 != x || y2 != y) ==> #[trigger] d.pix(
                x2,
                y2,
            ) == c.pix(x2, y2),
{
    let w = c.width as int;
    lemma_pix_in_bounds(w, c.height as int, x, y);
    assert forall|x2: int, y2: int|
        0 <= x2 < c.width && 0 <= y2 < c.height && (x2 != x || y2 != y) implies #[trigger] d.pix(
        x2,
        y2,
    ) == c.pix(x2, y2) by {
        lemma_pix_in_bounds(w, c.height as int, x2, y2);
        if y2 > y {
            assert(y2 * w - y * w >= w) by (nonlinear_arith)
                requires
                    y2 >= y + 1,
                    w >= 1,
            ;
        } else if y2 < y {
            assert(y * w - y2 * w >= w) by (nonlinear_arith)
                requires
                    y >= y2 + 1,
                    w >= 1,
            ;
        }
        assert(y2 * w + x2 != y * w + x);
    }
}

/// Row-major positions of in-range coordinates lie inside the buffer.
proof fn lemma_pix_in_bounds(w: int, h: int, x: int, y: int)
    requires
        0 <= x < w,
        0 <= y < h,
    ensures
        0 <= y * w + x < w * h,
{
    lemma_mul_inequality(y + 1, h, w);
    assert((y + 1) * w == y * w + w) by (nonlinear_arith);
    assert(y * w >= 0) by (nonlinear_arith)
        requires
            y >= 0,
            w >= 0,
    ;
    assert(h * w == w * h) by (nonlinear_arith);
}

} // verus!
