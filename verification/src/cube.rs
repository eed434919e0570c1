//! The box primitive and its ray intersection.

use vstd::prelude::*;
use crate::fixed::{
    abs_spec, add_spec, div_spec, fx_abs, fx_add, fx_div, fx_max, fx_min, fx_mul, fx_neg, fx_sub,
    max_spec, min_spec, mul_spec, sat, sub_spec, FX_MAX, FX_MIN, SCALE,
};
use crate::ray_intersect::{miss, FaceId, Intersect, Material, RayIntersect};
use crate::vec3::{vadd, vdot, vnormalize, vscale, vsub, Vec3};

verus! {

/// A direction component below this size counts as parallel to a slab.
pub const SLAB_EPS: i64 = 1;

/// A hit must lie farther than this along the ray.
pub const HIT_BIAS: i64 = 100;

/// How near a hit point must be to a face plane to belong to that face.
pub const FACE_TOL: i64 = 10_000;

/// A box centred at `center`, reaching `half_size` to each side, turned about
/// the vertical axis. The turn is held as its cosine and sine.
#[derive(Debug)]
pub struct Cube {
    pub center: Vec3,
    pub half_size: Vec3,
    pub rot_cos: i64,
    pub rot_sin: i64,
    pub material: Material,
    pub top_material: Option<Material>,
    pub radius: i64,
}

/// `v` turned about the vertical axis by the angle with cosine `c` and sine `s`.
pub open spec fn rot_y(v: Vec3, c: int, s: int) -> Vec3 {
    Vec3 {
        x: add_spec(mul_spec(c, v.x as int), mul_spec(s, v.z as int)) as i64,
        y: v.y,
        z: add_spec(mul_spec(sat(-s), v.x as int), mul_spec(c, v.z as int)) as i64,
    }
}

/// `v` turned about the first horizontal axis by the angle with cosine `c` and sine `s`.
pub open spec fn rot_x(v: Vec3, c: int, s: int) -> Vec3 {
    Vec3 {
        x: v.x,
        y: sub_spec(mul_spec(c, v.y as int), mul_spec(s, v.z as int)) as i64,
        z: add_spec(mul_spec(s, v.y as int), mul_spec(c, v.z as int)) as i64,
    }
}

/// The bounding sphere test: the point of the ray nearest to the centre, taken
/// no earlier than the origin, lies outside the sphere.
pub open spec fn sphere_rejects(cube: Cube, o: Vec3, d: Vec3) -> bool {
    let to_center = vsub(cube.center, o);
    let proj = max_spec(vdot(to_center, d), 0);
    let closest = vadd(o, vscale(d, proj));
    let off = vsub(closest, cube.center);
    vdot(off, off) > mul_spec(cube.radius as int, cube.radius as int)
}

/// The ray's origin in the box's own frame.
pub open spec fn local_origin(cube: Cube, o: Vec3) -> Vec3 {
    rot_y(vsub(o, cube.center), cube.rot_cos as int, sat(-(cube.rot_sin as int)))
}

/// The ray's direction in the box's own frame.
pub open spec fn local_dir(cube: Cube, d: Vec3) -> Vec3 {
    rot_y(d, cube.rot_cos as int, sat(-(cube.rot_sin as int)))
}

/// The parameters at which a ray with origin coordinate `lo` and direction
/// component `ld` is between `-half` and `half`: `None` when it never is.
pub open spec fn slab(lo: int, ld: int, half: int) -> Option<(int, int)> {
    if abs_spec(ld) < SLAB_EPS {
        if lo < sat(-half) || lo > half {
            None
        } else {
            Some((FX_MIN as int, FX_MAX as int))
        }
    } else {
        let t1 = div_spec(sub_spec(sat(-half), lo), ld);
        let t2 = div_spec(sub_spec(half, lo), ld);
        Some((min_spec(t1, t2), max_spec(t1, t2)))
    }
}

/// The parameters at which the local ray is inside the box on all three axes.
pub open spec fn box_interval(lo: Vec3, ld: Vec3, half: Vec3) -> Option<(int, int)> {
    match (
        slab(lo.x as int, ld.x as int, half.x as int),
        slab(lo.y as int, ld.y as int, half.y as int),
        slab(lo.z as int, ld.z as int, half.z as int),
    ) {
        (Some(sx), Some(sy), Some(sz)) => {
            let tmin = max_spec(max_spec(sx.0, sy.0), sz.0);
            let tmax = min_spec(min_spec(sx.1, sy.1), sz.1);
            if tmax < tmin {
                None
            } else {
                Some((tmin, tmax))
            }
        },
        _ => None,
    }
}

/// The parameter of the hit: the entry if it lies beyond the bias, else the
/// exit if that does, else none.
pub open spec fn hit_param(tmin: int, tmax: int) -> Option<int> {
    if tmin > HIT_BIAS {
        Some(tmin)
    } else if tmax > HIT_BIAS {
        Some(tmax)
    } else {
        None
    }
}

/// `a` lies within the face tolerance of `b`.
pub open spec fn near(a: int, b: int) -> bool {
    abs_spec(sub_spec(a, b)) < FACE_TOL
}

/// The sign of `v` as a unit: -1 below zero, else 1.
pub open spec fn sign_unit(v: int) -> int {
    if v < 0 {
        -(SCALE as int)
    } else {
        SCALE as int
    }
}

/// The outward unit normal, in the box's frame, of the face on which the
/// local point `h` lies. A point near no face plane takes the axis of its
/// largest coordinate.
pub open spec fn local_normal(h: Vec3, half: Vec3) -> Vec3 {
    if near(h.x as int, half.x as int) {
        Vec3 { x: SCALE, y: 0, z: 0 }
    } else if near(h.x as int, sat(-(half.x as int))) {
        Vec3 { x: -SCALE as i64, y: 0, z: 0 }
    } else if near(h.y as int, half.y as int) {
        Vec3 { x: 0, y: SCALE, z: 0 }
    } else if near(h.y as int, sat(-(half.y as int))) {
        Vec3 { x: 0, y: -SCALE as i64, z: 0 }
    } else if near(h.z as int, half.z as int) {
        Vec3 { x: 0, y: 0, z: SCALE }
    } else if near(h.z as int, sat(-(half.z as int))) {
        Vec3 { x: 0, y: 0, z: -SCALE as i64 }
    } else {
        let ax = abs_spec(h.x as int);
        let ay = abs_spec(h.y as int);
        let az = abs_spec(h.z as int);
        if ax > ay && ax > az {
            Vec3 { x: sign_unit(h.x as int) as i64, y: 0, z: 0 }
        } else if ay > az {
            Vec3 { x: 0, y: sign_unit(h.y as int) as i64, z: 0 }
        } else {
            Vec3 { x: 0, y: 0, z: sign_unit(h.z as int) as i64 }
        }
    }
}

/// The face that has the local normal `n`.
pub open spec fn face_of(n: Vec3) -> FaceId {
    if n.x != 0 {
        if n.x > 0 {
            FaceId::Right
        } else {
            FaceId::Left
        }
    } else if n.y != 0 {
        if n.y > 0 {
            FaceId::Top
        } else {
            FaceId::Bottom
        }
    } else if n.z != 0 {
        if n.z > 0 {
            FaceId::Front
        } else {
            FaceId::Back
        }
    } else {
        FaceId::Unknown
    }
}

/// Where `h` lies between `-half` and `half`, as a fraction of that extent.
pub open spec fn frac(h: int, half: int) -> int {
    div_spec(sub_spec(h, sat(-half)), sub_spec(half, sat(-half)))
}

/// One minus `v`.
pub open spec fn flip(v: int) -> int {
    sub_spec(SCALE as int, v)
}

/// The texture coordinates of the local point `h` on the face with normal `n`.
pub open spec fn face_uv(h: Vec3, n: Vec3, half: Vec3) -> (int, int) {
    let fx = frac(h.x as int, half.x as int);
    let fy = frac(h.y as int, half.y as int);
    let fz = frac(h.z as int, half.z as int);
    if n.x != 0 {
        if n.x > 0 {
            (flip(fz), fy)
        } else {
            (fz, fy)
        }
    } else if n.y != 0 {
        if n.y > 0 {
            (fz, flip(fx))
        } else {
            (fx, flip(fz))
        }
    } else {
        if n.z < 0 {
            (flip(fx), fy)
        } else {
            (fx, fy)
        }
    }
}

/// The material that shows on `face`.
pub open spec fn face_material(cube: Cube, face: FaceId) -> Material {
    match cube.top_material {
        Some(top) if face == FaceId::Top => top,
        _ => cube.material,
    }
}

/// The hit at parameter `t` of the ray from `o` along `d`.
pub open spec fn hit_at(cube: Cube, o: Vec3, d: Vec3, t: int) -> Intersect {
    let lo = local_origin(cube, o);
    let ld = local_dir(cube, d);
    let h = vadd(lo, vscale(ld, t));
    let n = local_normal(h, cube.half_size);
    let uv = face_uv(h, n, cube.half_size);
    Intersect {
        distance: t as i64,
        is_intersecting: true,
        material: face_material(cube, face_of(n)),
        normal: vnormalize(rot_y(n, cube.rot_cos as int, cube.rot_sin as int)),
        point: vadd(o, vscale(d, t)),
        uv: (uv.0 as i64, uv.1 as i64),
        face: face_of(n),
    }
}

/// What the ray from `o` along `d` meets of the box.
#[verifier::opaque]
pub open spec fn cube_hit(cube: Cube, o: Vec3, d: Vec3) -> Intersect {
    if sphere_rejects(cube, o, d) {
        miss()
    } else {
        match box_interval(local_origin(cube, o), local_dir(cube, d), cube.half_size) {
            None => miss(),
            Some(iv) => match hit_param(iv.0, iv.1) {
                None => miss(),
                Some(t) => hit_at(cube, o, d, t),
            },
        }
    }
}

fn slab_interval(lo: i64, ld: i64, half: i64) -> (r: Option<(i64, i64)>)
    ensures
        match slab(lo as int, ld as int, half as int) {
            Some(s) => r == Some((s.0 as i64, s.1 as i64)) && r.unwrap().0 == s.0 && r.unwrap().1
                == s.1,
            None => r.is_none(),
        },
{
    let lower = fx_neg(half);
    if fx_abs(ld) < SLAB_EPS {
        if lo < lower || lo > half {
            None
        } else {
            Some((FX_MIN, FX_MAX))
        }
    } else {
        let t1 = fx_div(fx_sub(lower, lo), ld);
        let t2 = fx_div(fx_sub(half, lo), ld);
        Some((fx_min(t1, t2), fx_max(t1, t2)))
    }
}

fn interval_of(lo: &Vec3, ld: &Vec3, half: &Vec3) -> (r: Option<(i64, i64)>)
    ensures
        match box_interval(*lo, *ld, *half) {
            Some(s) => r.is_some() && r.unwrap().0 == s.0 && r.unwrap().1 == s.1,
            None => r.is_none(),
        },
{
    let sx = match slab_interval(lo.x, ld.x, half.x) {
        Some(s) => s,
        None => {
            return None;
        },
    };
    let sy = match slab_interval(lo.y, ld.y, half.y) {
        Some(s) => s,
        None => {
            return None;
        },
    };
    let sz = match slab_interval(lo.z, ld.z, half.z) {
        Some(s) => s,
        None => {
            return None;
        },
    };
    let tmin = fx_max(fx_max(sx.0, sy.0), sz.0);
    let tmax = fx_min(fx_min(sx.1, sy.1), sz.1);
    if tmax < tmin {
        None
    } else {
        Some((tmin, tmax))
    }
}

fn is_near(a: i64, b: i64) -> (r: bool)
    ensures
        r == near(a as int, b as int),
{
    fx_abs(fx_sub(a, b)) < FACE_TOL
}

fn unit_sign(v: i64) -> (r: i64)
    ensures
        r == sign_unit(v as int),
{
    if v < 0 {
        -SCALE
    } else {
        SCALE
    }
}

fn normal_of(h: &Vec3, half: &Vec3) -> (n: Vec3)
    ensures
        n == local_normal(*h, *half),
{
    if is_near(h.x, half.x) {
        Vec3::new(SCALE, 0, 0)
    } else if is_near(h.x, fx_neg(half.x)) {
        Vec3::new(-SCALE, 0, 0)
    } else if is_near(h.y, half.y) {
        Vec3::new(0, SCALE, 0)
    } else if is_near(h.y, fx_neg(half.y)) {
        Vec3::new(0, -SCALE, 0)
    } else if is_near(h.z, half.z) {
        Vec3::new(0, 0, SCALE)
    } else if is_near(h.z, fx_neg(half.z)) {
        Vec3::new(0, 0, -SCALE)
    } else {
        let ax = fx_abs(h.x);
        let ay = fx_abs(h.y);
        let az = fx_abs(h.z);
        if ax > ay && ax > az {
            Vec3::new(unit_sign(h.x), 0, 0)
        } else if ay > az {
            Vec3::new(0, unit_sign(h.y), 0)
        } else {
            Vec3::new(0, 0, unit_sign(h.z))
        }
    }
}

fn face_from(n: &Vec3) -> (f: FaceId)
    ensures
        f == face_of(*n),
{
    if n.x != 0 {
        if n.x > 0 {
            FaceId::Right
        } else {
            FaceId::Left
        }
    } else if n.y != 0 {
        if n.y > 0 {
            FaceId::Top
        } else {
            FaceId::Bottom
        }
    } else if n.z != 0 {
        if n.z > 0 {
            FaceId::Front
        } else {
            FaceId::Back
        }
    } else {
        FaceId::Unknown
    }
}

fn fraction(h: i64, half: i64) -> (r: i64)
    ensures
        r == frac(h as int, half as int),
{
    let lower = fx_neg(half);
    fx_div(fx_sub(h, lower), fx_sub(half, lower))
}

fn uv_of(h: &Vec3, n: &Vec3, half: &Vec3) -> (uv: (i64, i64))
    ensures
        uv.0 == face_uv(*h, *n, *half).0,
        uv.1 == face_uv(*h, *n, *half).1,
{
    let fx = fraction(h.x, half.x);
    let fy = fraction(h.y, half.y);
    let fz = fraction(h.z, half.z);
    if n.x != 0 {
        if n.x > 0 {
            (fx_sub(SCALE, fz), fy)
        } else {
            (fz, fy)
        }
    } else if n.y != 0 {
        if n.y > 0 {
            (fz, fx_sub(SCALE, fx))
        } else {
            (fx, fx_sub(SCALE, fz))
        }
    } else {
        if n.z < 0 {
            (fx_sub(SCALE, fx), fy)
        } else {
            (fx, fy)
        }
    }
}

impl Cube {
    /// A box with the bounding radius that belongs to its half size, rounded up.
    pub fn new(
        center: Vec3,
        half_size: Vec3,
        rot_cos: i64,
        rot_sin: i64,
        material: Material,
        top_material: Option<Material>,
    ) -> (c: Cube)
        ensures
            c == (Cube {
                center,
                half_size,
                rot_cos,
                rot_sin,
                material,
                top_material,
                radius: add_spec(crate::vec3::vlength(half_size), 1) as i64,
            }),
    {
        let radius = fx_add(half_size.length(), 1);
        Cube { center, half_size, rot_cos, rot_sin, material, top_material, radius }
    }

    /// Turns `v` about the vertical axis by the angle with the given cosine and sine.
    pub fn rotate_y(v: &Vec3, cos: i64, sin: i64) -> (r: Vec3)
        ensures
            r == rot_y(*v, cos as int, sin as int),
    {
        Vec3 {
            x: fx_add(fx_mul(cos, v.x), fx_mul(sin, v.z)),
            y: v.y,
            z: fx_add(fx_mul(fx_neg(sin), v.x), fx_mul(cos, v.z)),
        }
    }

    /// Turns `v` about the first horizontal axis by the angle with the given cosine and sine.
    pub fn rotate_x(v: &Vec3, cos: i64, sin: i64) -> (r: Vec3)
        ensures
            r == rot_x(*v, cos as int, sin as int),
    {
        Vec3 {
            x: v.x,
            y: fx_sub(fx_mul(cos, v.y), fx_mul(sin, v.z)),
            z: fx_add(fx_mul(sin, v.y), fx_mul(cos, v.z)),
        }
    }

    fn outside_sphere(&self, o: &Vec3, d: &Vec3) -> (r: bool)
        ensures
            r == sphere_rejects(*self, *o, *d),
    {
        let to_center = self.center.sub(o);
        let proj = fx_max(to_center.dot(d), 0);
        let closest = o.add(&d.scale(proj));
        let off = closest.sub(&self.center);
        off.dot(&off) > fx_mul(self.radius, self.radius)
    }

    fn material_on(&self, face: FaceId) -> (m: Material)
        ensures
            m == face_material(*self, face),
    {
        match (&self.top_material, face) {
            (Some(top), FaceId::Top) => top.clone(),
            _ => self.material.clone(),
        }
    }

    /// Intersects the ray from `ray_origin` along `ray_dir` with the box.
    pub fn ray_intersect(&self, ray_origin: &Vec3, ray_dir: &Vec3) -> (r: Intersect)
        ensures
            r == cube_hit(*self, *ray_origin, *ray_dir),
    {
        proof {
            reveal(cube_hit);
        }
        if self.outside_sphere(ray_origin, ray_dir) {
            return Intersect::empty();
        }
        let back = fx_neg(self.rot_sin);
        let lo = Cube::rotate_y(&ray_origin.sub(&self.center), self.rot_cos, back);
        let ld = Cube::rotate_y(ray_dir, self.rot_cos, back);
        let (tmin, tmax) = match interval_of(&lo, &ld, &self.half_size) {
            Some(iv) => iv,
            None => {
                return Intersect::empty();
            },
        };
        let t_hit = if tmin > HIT_BIAS {
            tmin
        } else if tmax > HIT_BIAS {
            tmax
        } else {
            return Intersect::empty();
        };
        let hit_local = lo.add(&ld.scale(t_hit));
        let normal_local = normal_of(&hit_local, &self.half_size);
        let normal_world = Cube::rotate_y(&normal_local, self.rot_cos, self.rot_sin).normalize();
        let hit_world = ray_origin.add(&ray_dir.scale(t_hit));
        let uv = uv_of(&hit_local, &normal_local, &self.half_size);
        let face = face_from(&normal_local);
        let mat = self.material_on(face);
        Intersect::new(hit_world, normal_world, t_hit, mat, uv, face)
    }
}

/// The local normal of a hit point is a unit vector along one axis, so it
/// names one of the six faces.
pub proof fn lemma_normal_names_face(h: Vec3, half: Vec3)
    ensures
        face_of(local_normal(h, half))
            != FaceId::Unknown,
{
    let n = local_normal(h, half);
    assert(n.x != 0 || n.y != 0 || n.z != 0);
}

/// A hit lies beyond the bias along the ray, names a face and shows the
/// material of that face; a miss is the empty record.
pub proof fn lemma_hit_record(c: Cube, o: Vec3, d: Vec3)
    ensures
        ({
            let r = cube_hit(c, o, d);
            &&& r.is_intersecting ==> r.distance > HIT_BIAS && r.material
                == face_material(c, r.face) && r.face
                != FaceId::Unknown
            &&& !r.is_intersecting ==> r == miss()
        }),
{
    reveal(cube_hit);
    if !sphere_rejects(c, o, d) {
        let lo = local_origin(c, o);
        let ld = local_dir(c, d);
        if let Some(iv) = box_interval(lo, ld, c.half_size) {
            if let Some(t) = hit_param(iv.0, iv.1) {
                let h = vadd(lo, vscale(ld, t));
                lemma_normal_names_face(h, c.half_size);
                assert(cube_hit(c, o, d) == hit_at(c, o, d, t));
                assert(FX_MIN <= t <= FX_MAX);
            }
        }
    }
}

impl Clone for Cube {
    /// A copy equal to the box in every field.
    fn clone(&self) -> (c: Cube)
        ensures
            c == *self,
    {
        let top_material = match &self.top_material {
            Some(m) => Some(m.clone()),
            None => None,
        };
        Cube {
            center: self.center,
            half_size: self.half_size,
            rot_cos: self.rot_cos,
            rot_sin: self.rot_sin,
            material: self.material.clone(),
            top_material,
            radius: self.radius,
        }
    }
}

/// The small box of the scene in the grid cell `(col, row)`, counted from
/// 1, at height `y`.
pub open spec fn small_cube(col: i32, row: i32, y: i64, mat: Material) -> Cube {
    let half = Vec3 { x: 300_000, y: 300_000, z: 300_000 };
    Cube {
        center: Vec3 { x: ((col - 1) * SCALE) as i64, y, z: ((row - 1) * SCALE) as i64 },
        half_size: half,
        rot_cos: SCALE,
        rot_sin: 0,
        material: mat,
        top_material: None,
        radius: add_spec(crate::vec3::vlength(half), 1) as i64,
    }
}

/// The droplet of the scene in the grid cell `(col, row)`, counted from 1,
/// at height `y`: a smaller box set a little off the cell's centre.
pub open spec fn small_droplet(col: i32, row: i32, y: i64, mat: Material) -> Cube {
    let half = Vec3 { x: 180_000, y: 180_000, z: 180_000 };
    Cube {
        center: Vec3 {
            x: ((col - 1) * SCALE + 120_000) as i64,
            y,
            z: ((row - 1) * SCALE - 80_000) as i64,
        },
        half_size: half,
        rot_cos: SCALE,
        rot_sin: 0,
        material: mat,
        top_material: None,
        radius: add_spec(crate::vec3::vlength(half), 1) as i64,
    }
}

/// A small unturned box in the grid cell `(col, row)` at height `y`.
pub fn make_small_cube(col: i32, row: i32, y: i64, mat: Material) -> (c: Cube)
    ensures
        c == small_cube(col, row, y, mat),
{
    let cx: i64 = (col as i64 - 1) * 1_000_000;
    let cz: i64 = (row as i64 - 1) * 1_000_000;
    Cube::new(Vec3::new(cx, y, cz), Vec3::new(300_000, 300_000, 300_000), SCALE, 0, mat, None)
}

/// A droplet in the grid cell `(col, row)` at height `y`.
pub fn make_small_droplet(col: i32, row: i32, y: i64, mat: Material) -> (c: Cube)
    ensures
        c == small_droplet(col, row, y, mat),
{
    let cx: i64 = (col as i64 - 1) * 1_000_000 + 120_000;
    let cz: i64 = (row as i64 - 1) * 1_000_000 - 80_000;
    Cube::new(Vec3::new(cx, y, cz), Vec3::new(180_000, 180_000, 180_000), SCALE, 0, mat, None)
}

impl RayIntersect for Cube {
    open spec fn hit(&self, o: Vec3, d: Vec3) -> Intersect {
        cube_hit(*self, o, d)
    }

    fn ray_intersect(&self, ray_origin: &Vec3, ray_direction: &Vec3) -> (r: Intersect) {
        Cube::ray_intersect(self, ray_origin, ray_direction)
    }
}

} // verus!
