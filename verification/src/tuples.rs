//! Four-component homogeneous-coordinate tuples: `w == 1` marks a point,
//! `w == 0` a free vector. Arithmetic is field-wise and exact; the type
//! itself does not reject geometrically meaningless combinations, which is
//! a deliberate simplicity trade-off of this kernel.

use crate::fixed::{fits, prod, prod_wide, Fixed, SCALE};
use vstd::prelude::*;

verus! {

#[derive(Debug, Clone, Copy, PartialEq, Eq, Structural)]
pub struct FourTuple {
    pub x: Fixed,
    pub y: Fixed,
    pub z: Fixed,
    pub w: Fixed,
}

/// Raw value of the dot product: the four coordinate products, each
/// truncated to the scalar grid, summed exactly.
pub open spec fn dot_spec(a: FourTuple, b: FourTuple) -> int {
    prod(a.x.raw as int, b.x.raw as int) + prod(a.y.raw as int, b.y.raw as int) + prod(
        a.z.raw as int,
        b.z.raw as int,
    ) + prod(a.w.raw as int, b.w.raw as int)
}

/// Raw x component of the cross product.
pub open spec fn cross_x_spec(a: FourTuple, b: FourTuple) -> int {
    prod(a.y.raw as int, b.z.raw as int) - prod(a.z.raw as int, b.y.raw as int)
}

/// Raw y component of the cross product.
pub open spec fn cross_y_spec(a: FourTuple, b: FourTuple) -> int {
    prod(a.z.raw as int, b.x.raw as int) - prod(a.x.raw as int, b.z.raw as int)
}

/// Raw z component of the cross product.
pub open spec fn cross_z_spec(a: FourTuple, b: FourTuple) -> int {
    prod(a.x.raw as int, b.y.raw as int) - prod(a.y.raw as int, b.x.raw as int)
}

impl FourTuple {
    /// A point has homogeneous coordinate 1.
    pub open spec fn is_point_spec(self) -> bool {
        self.w.raw == SCALE
    }

    /// A free vector has homogeneous coordinate 0.
    pub open spec fn is_vector_spec(self) -> bool {
        self.w.raw == 0
    }

    /// General constructor: any `w` is allowed, for raw algebra such as
    /// matrix output.
    pub fn new(x: Fixed, y: Fixed, z: Fixed, w: Fixed) -> (r: FourTuple)
        ensures
            r == (FourTuple { x, y, z, w }),
    {
        FourTuple { x, y, z, w }
    }

    /// A point: `w` is fixed to 1.
    pub fn point(x: Fixed, y: Fixed, z: Fixed) -> (r: FourTuple)
        ensures
            r.x == x,
            r.y == y,
            r.z == z,
            r.is_point_spec(),
    {
        FourTuple { x, y, z, w: Fixed { raw: SCALE } }
    }

    /// A free vector: `w` is fixed to 0.
    pub fn vector(x: Fixed, y: Fixed, z: Fixed) -> (r: FourTuple)
        ensures
            r.x == x,
            r.y == y,
            r.z == z,
            r.is_vector_spec(),
    {
        FourTuple { x, y, z, w: Fixed { raw: 0 } }
    }

    pub fn is_point(obj: &FourTuple) -> (r: bool)
        ensures
            r == obj.is_point_spec(),
    {
        obj.w.raw == SCALE
    }

    pub fn is_vector(obj: &FourTuple) -> (r: bool)
        ensures
            r == obj.is_vector_spec(),
    {
        obj.w.raw == 0
    }

    /// Field-wise exact sum.
    pub fn add(self, other: FourTuple) -> (r: FourTuple)
        requires
            fits(self.x.raw + other.x.raw),
            fits(self.y.raw + other.y.raw),
            fits(self.z.raw + other.z.raw),
            fits(self.w.raw + other.w.raw),
        ensures
            r.x.raw == self.x.raw + other.x.raw,
            r.y.raw == self.y.raw + other.y.raw,
            r.z.raw == self.z.raw + other.z.raw,
            r.w.raw == self.w.raw + other.w.raw,
    {
        FourTuple {
            x: self.x.add(other.x),
            y: self.y.add(other.y),
            z: self.z.add(other.z),
            w: self.w.add(other.w),
        }
    }

    /// Field-wise exact difference.
    pub fn sub(self, other: FourTuple) -> (r: FourTuple)
        requires
            fits(self.x.raw - other.x.raw),
            fits(self.y.raw - other.y.raw),
            fits(self.z.raw - other.z.raw),
            fits(self.w.raw - other.w.raw),
        ensures
            r.x.raw == self.x.raw - other.x.raw,
            r.y.raw == self.y.raw - other.y.raw,
            r.z.raw == self.z.raw - other.z.raw,
            r.w.raw == self.w.raw - other.w.raw,
    {
        FourTuple {
            x: self.x.sub(other.x),
            y: self.y.sub(other.y),
            z: self.z.sub(other.z),
            w: self.w.sub(other.w),
        }
    }

    /// Field-wise exact negation, `w` included.
    pub fn neg(self) -> (r: FourTuple)
        requires
            fits(-self.x.raw),
            fits(-self.y.raw),
            fits(-self.z.raw),
            fits(-self.w.raw),
        ensures
            r.x.raw == -self.x.raw,
            r.y.raw == -self.y.raw,
            r.z.raw == -self.z.raw,
            r.w.raw == -self.w.raw,
    {
        FourTuple { x: self.x.neg(), y: self.y.neg(), z: self.z.neg(), w: self.w.neg() }
    }

    /// Field-wise scaling by a scalar, `w` included.
    pub fn scale(self, scalar: Fixed) -> (r: FourTuple)
        requires
            fits(prod(self.x.raw as int, scalar.raw as int)),
            fits(prod(self.y.raw as int, scalar.raw as int)),
            fits(prod(self.z.raw as int, scalar.raw as int)),
            fits(prod(self.w.raw as int, scalar.raw as int)),
        ensures
            r.x.raw == prod(self.x.raw as int, scalar.raw as int),
            r.y.raw == prod(self.y.raw as int, scalar.raw as int),
            r.z.raw == prod(self.z.raw as int, scalar.raw as int),
            r.w.raw == prod(self.w.raw as int, scalar.raw as int),
    {
        FourTuple {
            x: self.x.mul(scalar),
            y: self.y.mul(scalar),
            z: self.z.mul(scalar),
            w: self.w.mul(scalar),
        }
    }
}

/// Dot product over all four components, `w` included.
pub fn dot(a: &FourTuple, b: &FourTuple) -> (r: Fixed)
    requires
        fits(dot_spec(*a, *b)),
    ensures
        r.raw == dot_spec(*a, *b),
{
    proof {
        crate::fixed::lemma_prod_bound(a.x.raw as int, b.x.raw as int);
        crate::fixed::lemma_prod_bound(a.y.raw as int, b.y.raw as int);
        crate::fixed::lemma_prod_bound(a.z.raw as int, b.z.raw as int);
        crate::fixed::lemma_prod_bound(a.w.raw as int, b.w.raw as int);
    }
    let s: i128 = prod_wide(a.x.raw, b.x.raw) + prod_wide(a.y.raw, b.y.raw) + prod_wide(
        a.z.raw,
        b.z.raw,
    ) + prod_wide(a.w.raw, b.w.raw);
    Fixed { raw: s as i64 }
}

/// Three-dimensional cross product on the x, y, z components; the result is
/// a vector (`w == 0`) whatever the inputs' homogeneous coordinates.
pub fn cross(a: &FourTuple, b: &FourTuple) -> (r: FourTuple)
    requires
        fits(cross_x_spec(*a, *b)),
        fits(cross_y_spec(*a, *b)),
        fits(cross_z_spec(*a, *b)),
    ensures
        r.x.raw == cross_x_spec(*a, *b),
        r.y.raw == cross_y_spec(*a, *b),
        r.z.raw == cross_z_spec(*a, *b),
        r.is_vector_spec(),
{
    let cx: i128 = prod_wide(a.y.raw, b.z.raw) - prod_wide(a.z.raw, b.y.raw);
    let cy: i128 = prod_wide(a.z.raw, b.x.raw) - prod_wide(a.x.raw, b.z.raw);
    let cz: i128 = prod_wide(a.x.raw, b.y.raw) - prod_wide(a.y.raw, b.x.raw);
    proof {
        crate::fixed::lemma_prod_bound(a.x.raw as int, b.y.raw as int);
        crate::fixed::lemma_prod_bound(a.y.raw as int, b.x.raw as int);
        crate::fixed::lemma_prod_bound(a.y.raw as int, b.z.raw as int);
        crate::fixed::lemma_prod_bound(a.z.raw as int, b.y.raw as int);
        crate::fixed::lemma_prod_bound(a.z.raw as int, b.x.raw as int);
        crate::fixed::lemma_prod_bound(a.x.raw as int, b.z.raw as int);
    }
    FourTuple::vector(
        Fixed { raw: cx as i64 },
        Fixed { raw: cy as i64 },
        Fixed { raw: cz as i64 },
    )
}

/// Adding a vector to a point yields a point.
pub proof fn lemma_point_plus_vector_is_point(p: FourTuple, v: FourTuple, r: FourTuple)
    requires
        p.is_point_spec(),
        v.is_vector_spec(),
        r.w.raw == p.w.raw + v.w.raw,
    ensures
        r.is_point_spec(),
{
}

/// Subtracting a vector from a point yields a point.
pub proof fn lemma_point_minus_vector_is_point(p: FourTuple, v: FourTuple, r: FourTuple)
    requires
        p.is_point_spec(),
        v.is_vector_spec(),
        r.w.raw == p.w.raw - v.w.raw,
    ensures
        r.is_point_spec(),
{
}

/// Subtracting a point from a point yields a vector.
pub proof fn lemma_point_minus_point_is_vector(p: FourTuple, q: FourTuple, r: FourTuple)
    requires
        p.is_point_spec(),
        q.is_point_spec(),
        r.w.raw == p.w.raw - q.w.raw,
    ensures
        r.is_vector_spec(),
{
}

/// Subtracting a vector from a vector yields a vector.
pub proof fn lemma_vector_minus_vector_is_vector(u: FourTuple, v: FourTuple, r: FourTuple)
    requires
        u.is_vector_spec(),
        v.is_vector_spec(),
        r.w.raw == u.w.raw - v.w.raw,
    ensures
        r.is_vector_spec(),
{
}

/// The cross product is antisymmetric: `cross(a, b) == -cross(b, a)`,
/// component by component.
pub proof fn lemma_cross_antisymmetric(a: FourTuple, b: FourTuple)
    ensures
        cross_x_spec(a, b) == -cross_x_spec(b, a),
        cross_y_spec(a, b) == -cross_y_spec(b, a),
        cross_z_spec(a, b) == -cross_z_spec(b, a),
{
}

} // verus!
