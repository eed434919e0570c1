//! Three-component fixed-point vectors.

use vstd::prelude::*;
use crate::fixed::{
    add_spec, div_spec, fx_add, fx_div, fx_mul, fx_neg, fx_sqrt, fx_sub, mul_spec, sat, sqrt_spec,
    sub_spec,
};

verus! {

/// A point or a direction; each component counts millionths of a world unit.
#[derive(Clone, Copy, Debug, PartialEq, Eq)]
pub struct Vec3 {
    pub x: i64,
    pub y: i64,
    pub z: i64,
}

/// The componentwise saturating sum.
pub open spec fn vadd(a: Vec3, b: Vec3) -> Vec3 {
    Vec3 {
        x: add_spec(a.x as int, b.x as int) as i64,
        y: add_spec(a.y as int, b.y as int) as i64,
        z: add_spec(a.z as int, b.z as int) as i64,
    }
}

/// The componentwise saturating difference.
pub open spec fn vsub(a: Vec3, b: Vec3) -> Vec3 {
    Vec3 {
        x: sub_spec(a.x as int, b.x as int) as i64,
        y: sub_spec(a.y as int, b.y as int) as i64,
        z: sub_spec(a.z as int, b.z as int) as i64,
    }
}

/// Each component multiplied by the fixed-point factor `k`.
pub open spec fn vscale(a: Vec3, k: int) -> Vec3 {
    Vec3 {
        x: mul_spec(a.x as int, k) as i64,
        y: mul_spec(a.y as int, k) as i64,
        z: mul_spec(a.z as int, k) as i64,
    }
}

/// The componentwise saturating negation.
pub open spec fn vneg(a: Vec3) -> Vec3 {
    Vec3 { x: sat(-(a.x as int)) as i64, y: sat(-(a.y as int)) as i64, z: sat(-(a.z as int)) as i64 }
}

/// The fixed-point dot product, summed left to right with saturation.
pub open spec fn vdot(a: Vec3, b: Vec3) -> int {
    add_spec(
        add_spec(mul_spec(a.x as int, b.x as int), mul_spec(a.y as int, b.y as int)),
        mul_spec(a.z as int, b.z as int),
    )
}

/// The mirror image of `v` in the plane with normal `n`: `v - 2 (v . n) n`.
pub open spec fn vreflect(v: Vec3, n: Vec3) -> Vec3 {
    vsub(v, vscale(vscale(n, 2 * crate::fixed::SCALE), vdot(v, n)))
}

/// The length of `a`, rounded down.
pub open spec fn vlength(a: Vec3) -> int {
    sqrt_spec(vdot(a, a))
}

/// `a` divided by its length; a vector of length zero stays as it is.
pub open spec fn vnormalize(a: Vec3) -> Vec3 {
    let len = vlength(a);
    if len == 0 {
        a
    } else {
        Vec3 {
            x: div_spec(a.x as int, len) as i64,
            y: div_spec(a.y as int, len) as i64,
            z: div_spec(a.z as int, len) as i64,
        }
    }
}

impl Vec3 {
    /// A vector from its three components.
    pub fn new(x: i64, y: i64, z: i64) -> (r: Vec3)
        ensures
            r == (Vec3 { x, y, z }),
    {
        Vec3 { x, y, z }
    }

    /// The sum of two vectors.
    pub fn add(&self, o: &Vec3) -> (r: Vec3)
        ensures
            r == vadd(*self, *o),
    {
        Vec3 { x: fx_add(self.x, o.x), y: fx_add(self.y, o.y), z: fx_add(self.z, o.z) }
    }

    /// The difference of two vectors.
    pub fn sub(&self, o: &Vec3) -> (r: Vec3)
        ensures
            r == vsub(*self, *o),
    {
        Vec3 { x: fx_sub(self.x, o.x), y: fx_sub(self.y, o.y), z: fx_sub(self.z, o.z) }
    }

    /// The vector multiplied by a fixed-point factor.
    pub fn scale(&self, k: i64) -> (r: Vec3)
        ensures
            r == vscale(*self, k as int),
    {
        Vec3 { x: fx_mul(self.x, k), y: fx_mul(self.y, k), z: fx_mul(self.z, k) }
    }

    /// The opposite vector.
    pub fn neg(&self) -> (r: Vec3)
        ensures
            r == vneg(*self),
    {
        Vec3 { x: fx_neg(self.x), y: fx_neg(self.y), z: fx_neg(self.z) }
    }

    /// The dot product of two vectors.
    pub fn dot(&self, o: &Vec3) -> (r: i64)
        ensures
            r == vdot(*self, *o),
    {
        fx_add(fx_add(fx_mul(self.x, o.x), fx_mul(self.y, o.y)), fx_mul(self.z, o.z))
    }

    /// The length of the vector, rounded down.
    pub fn length(&self) -> (r: i64)
        ensures
            r == vlength(*self),
    {
        fx_sqrt(self.dot(self))
    }

    /// The vector scaled to unit length; a vector of length zero is returned as it is.
    pub fn normalize(&self) -> (r: Vec3)
        ensures
            r == vnormalize(*self),
    {
        let len = self.length();
        if len == 0 {
            *self
        } else {
            Vec3 { x: fx_div(self.x, len), y: fx_div(self.y, len), z: fx_div(self.z, len) }
        }
    }
}

/// Mirrors the direction `v` in the plane whose normal is `n`.
pub fn reflect(v: &Vec3, n: &Vec3) -> (r: Vec3)
    ensures
        r == vreflect(*v, *n),
{
    let d = v.dot(n);
    v.sub(&n.scale(2_000_000).scale(d))
}

} // verus!
