//! The shading pipeline: from a ray to a display colour.

use vstd::prelude::*;
use crate::bvh::{
    intersect_bvh, intersect_linear, nearer, no_hit_yet, scan_all, traversable, traverse_spec, BVH,
};
use crate::color::Color;
use crate::cube::{cube_hit, Cube};
use crate::fixed::{
    add_spec, clamp_spec, fx_add, fx_clamp, fx_max, fx_min, fx_mul, fx_sub, max_spec, min_spec,
    mul_spec, sub_spec, FX_MAX, SCALE,
};
use crate::ray_intersect::{FaceId, Intersect, Material};
use crate::texture::TextureManager;
use crate::tone::{
    color_levels, levels_of, linear_of, srgb_to_linear, tone_map, tone_map_spec,
};
use crate::vec3::{reflect, vadd, vdot, vneg, vnormalize, vreflect, vscale, Vec3};

verus! {

/// The light that reaches every surface.
pub const AMBIENT: i64 = 360_000;

/// The factor applied to linear light before the tone curve.
pub const EXPOSURE: i64 = 1_600_000;

/// The depth from which no reflection is followed.
pub const MAX_DEPTH: i32 = 3;

/// How far a secondary ray starts from the surface it leaves.
pub const RAY_BIAS: i64 = 1_000;

/// Transparency and reflectivity count only above this.
pub const BLEND_MIN: i64 = 10_000;

/// A box is seen through a transparent surface only if its half size along
/// the first axis reaches this.
pub const LOOK_THROUGH_HALF: i64 = 450_000;

/// The direction toward the light, before it is scaled to unit length.
pub open spec fn light_toward() -> Vec3 {
    Vec3 { x: -600_000i64, y: 900_000, z: -400_000i64 }
}

/// The unit direction toward the light.
pub open spec fn light_dir() -> Vec3 {
    vnormalize(light_toward())
}

/// How far up the sky gradient the direction `dir` looks: 0 at straight
/// down, 1 at straight up.
pub open spec fn sky_height(dir: Vec3) -> int {
    clamp_spec(mul_spec(500_000, add_spec(dir.y as int, SCALE as int)), 0, SCALE as int)
}

/// A channel of the sky: `top` and `bottom` mixed at height `t`.
pub open spec fn sky_channel(top: int, bottom: int, t: int) -> int {
    (top * t + bottom * (SCALE - t)) / (SCALE as int)
}

/// The colour of the sky in the direction `dir`.
pub open spec fn sky_spec(dir: Vec3) -> Color {
    let t = sky_height(dir);
    Color {
        r: sky_channel(135, 40, t) as u8,
        g: sky_channel(206, 70, t) as u8,
        b: sky_channel(235, 120, t) as u8,
        a: 255,
    }
}

/// The name of the texture on top of grass.
pub open spec fn grass_top() -> Seq<char> {
    "cesped.png"@
}

/// The name of the texture on the sides of grass.
pub open spec fn grass_side() -> Seq<char> {
    "cesped_de_lado.png"@
}

/// What a texture lookup gives, or the fallback colour.
pub open spec fn or_color(found: Option<Color>, fallback: Color) -> Color {
    match found {
        Some(c) => c,
        None => fallback,
    }
}

/// The colour of a material at `(u, v)` on `face`: that of its own texture
/// if the textures hold it; else, for grass, that of the grass texture of
/// the face; else the base colour.
pub open spec fn material_color(
    material: Material,
    u: int,
    v: int,
    face: FaceId,
    tx: Option<&TextureManager>,
) -> Color {
    match tx {
        None => material.diffuse,
        Some(tm) => {
            let su = mul_spec(u, material.uv_scale as int);
            let sv = mul_spec(v, material.uv_scale as int);
            let own = match material.texture {
                Some(path) => tm.sample_spec(path@, su, sv),
                None => None,
            };
            if own.is_some() {
                own.unwrap()
            } else if material.grass_like {
                match face {
                    FaceId::Top => or_color(tm.sample_spec(grass_top(), su, sv), material.diffuse),
                    FaceId::Left | FaceId::Right | FaceId::Front | FaceId::Back => or_color(
                        tm.sample_spec(grass_side(), su, sv),
                        material.diffuse,
                    ),
                    _ => material.diffuse,
                }
            } else {
                material.diffuse
            }
        },
    }
}

/// The square.
pub open spec fn sq(x: int) -> int {
    mul_spec(x, x)
}

/// The power 32.
pub open spec fn pow32(x: int) -> int {
    sq(sq(sq(sq(sq(x)))))
}

/// The share of light on a surface with the given normal: the ambient term
/// and the diffuse term, at most 1.
pub open spec fn intensity_spec(normal: Vec3) -> int {
    min_spec(add_spec(AMBIENT as int, max_spec(vdot(normal, light_dir()), 0)), SCALE as int)
}

/// The highlight of a surface with the given normal and gloss, seen along `dir`.
pub open spec fn highlight_spec(normal: Vec3, dir: Vec3, specular: int) -> int {
    let view = vnormalize(vneg(dir));
    let mirrored = vnormalize(vreflect(vneg(light_dir()), normal));
    mul_spec(specular, pow32(max_spec(vdot(view, mirrored), 0)))
}

/// The lit colour: the base colour times the intensity, plus the highlight
/// if the material has gloss.
pub open spec fn lit_spec(hit: Intersect, dir: Vec3, base: Vec3) -> Vec3 {
    let flat = vscale(base, intensity_spec(hit.normal));
    if hit.material.specular > 0 {
        let s = highlight_spec(hit.normal, dir, hit.material.specular as int) as i64;
        vadd(flat, Vec3 { x: s, y: s, z: s })
    } else {
        flat
    }
}

/// `a` and `b` mixed: `a * (1 - k) + b * k`.
pub open spec fn mix(a: Vec3, b: Vec3, k: int) -> Vec3 {
    vadd(vscale(a, sub_spec(SCALE as int, k)), vscale(b, k))
}

/// The best hit after testing, in order, the first `count` boxes, those
/// too small to be seen through a surface left out.
pub open spec fn scan_large(objects: Seq<Cube>, count: int, o: Vec3, d: Vec3, best: Intersect)
    -> Intersect
    decreases count,
{
    if count <= 0 {
        best
    } else {
        let before = scan_large(objects, count - 1, o, d, best);
        if objects[count - 1].half_size.x < LOOK_THROUGH_HALF {
            before
        } else {
            nearer(before, cube_hit(objects[count - 1], o, d))
        }
    }
}

/// What shows through a transparent surface hit at `hit` along `dir`: the
/// linear colour of the nearest large box behind it, or the sky.
pub open spec fn look_through(
    objects: Seq<Cube>,
    tx: Option<&TextureManager>,
    hit: Intersect,
    dir: Vec3,
) -> Vec3 {
    let origin = vadd(hit.point, vscale(dir, 10 * RAY_BIAS));
    let behind = scan_large(objects, objects.len() as int, origin, dir, no_hit_yet());
    if behind.is_intersecting {
        linear_of(
            material_color(behind.material, behind.uv.0 as int, behind.uv.1 as int, behind.face, tx),
        )
    } else {
        levels_of(sky_spec(dir))
    }
}

/// The tint of a liquid: nine parts of the colour and one of deep blue.
pub open spec fn tinted(c: Vec3) -> Vec3 {
    vadd(vscale(c, 900_000), vscale(Vec3 { x: 0, y: 30_000, z: 80_000 }, 100_000))
}

/// `c` with the reflection mixed in, if there is one.
pub open spec fn with_reflection(c: Vec3, material: Material, reflection: Option<Color>) -> Vec3 {
    match reflection {
        Some(rc) => mix(c, linear_of(rc), clamp_spec(material.reflectivity as int, 0, SCALE as int)),
        None => c,
    }
}

/// The colour of a hit, given the colour that its reflection ray returned,
/// if one was cast.
pub open spec fn shade_spec(
    objects: Seq<Cube>,
    tx: Option<&TextureManager>,
    hit: Intersect,
    dir: Vec3,
    reflection: Option<Color>,
) -> Color {
    let base_col = material_color(hit.material, hit.uv.0 as int, hit.uv.1 as int, hit.face, tx);
    let base = linear_of(base_col);
    if hit.material.unlit {
        base_col
    } else if hit.material.transparency > BLEND_MIN {
        let trans = clamp_spec(hit.material.transparency as int, 0, SCALE as int);
        let seen = mix(base, look_through(objects, tx, hit, dir), trans);
        let mirrored = with_reflection(seen, hit.material, reflection);
        let wet = if hit.material.liquid {
            tinted(mirrored)
        } else {
            mirrored
        };
        tone_map_spec(vscale(vscale(wet, intensity_spec(hit.normal)), EXPOSURE as int))
    } else {
        let lit = lit_spec(hit, dir, base);
        tone_map_spec(vscale(with_reflection(lit, hit.material, reflection), EXPOSURE as int))
    }
}

/// A hit on `material` at `depth` sends a reflection ray.
pub open spec fn reflects(material: Material, depth: int) -> bool {
    !material.unlit && clamp_spec(material.reflectivity as int, 0, SCALE as int) > BLEND_MIN && depth
        < MAX_DEPTH
}

/// The nearest hit of the ray: through the hierarchy if there is one, else
/// by testing every box.
pub open spec fn nearest_spec(objects: Seq<Cube>, bvh: Option<&BVH>, o: Vec3, d: Vec3) -> Intersect {
    match bvh {
        Some(b) => traverse_spec(b.root, objects, b.indices@, o, d, no_hit_yet()),
        None => scan_all(objects, objects.len() as int, o, d, no_hit_yet()),
    }
}

/// The direction of the reflection ray.
pub open spec fn mirror_dir(hit: Intersect, dir: Vec3) -> Vec3 {
    vnormalize(vreflect(dir, hit.normal))
}

/// The origin of the reflection ray, lifted off the surface.
pub open spec fn mirror_origin(hit: Intersect) -> Vec3 {
    vadd(hit.point, vscale(hit.normal, RAY_BIAS as int))
}

/// The steps of recursion left at `depth`.
pub open spec fn depth_left(depth: int) -> nat {
    if depth < MAX_DEPTH {
        (MAX_DEPTH - depth) as nat
    } else {
        0
    }
}

/// The colour that the ray from `o` along `d` shows at recursion depth `depth`.
pub open spec fn cast_spec(
    objects: Seq<Cube>,
    bvh: Option<&BVH>,
    tx: Option<&TextureManager>,
    o: Vec3,
    d: Vec3,
    depth: int,
) -> Color
    decreases depth_left(depth),
{
    let hit = nearest_spec(objects, bvh, o, d);
    if !hit.is_intersecting {
        sky_spec(d)
    } else if reflects(hit.material, depth) {
        shade_spec(
            objects,
            tx,
            hit,
            d,
            Some(cast_spec(objects, bvh, tx, mirror_origin(hit), mirror_dir(hit, d), depth + 1)),
        )
    } else {
        shade_spec(objects, tx, hit, d, None)
    }
}

/// From the depth limit on no reflection ray is sent, so the colour no
/// longer depends on the depth.
pub proof fn lemma_depth_limit(
    objects: Seq<Cube>,
    bvh: Option<&BVH>,
    tx: Option<&TextureManager>,
    o: Vec3,
    d: Vec3,
    depth: int,
)
    requires
        depth >= MAX_DEPTH,
    ensures
        !reflects(nearest_spec(objects, bvh, o, d).material, depth),
        cast_spec(objects, bvh, tx, o, d, depth) == cast_spec(objects, bvh, tx, o, d, MAX_DEPTH as int),
        nearest_spec(objects, bvh, o, d).is_intersecting ==> cast_spec(objects, bvh, tx, o, d, depth)
            == shade_spec(objects, tx, nearest_spec(objects, bvh, o, d), d, None),
{
}

/// A ray that meets nothing shows the sky, at any depth.
pub proof fn lemma_miss_shows_sky(
    objects: Seq<Cube>,
    bvh: Option<&BVH>,
    tx: Option<&TextureManager>,
    o: Vec3,
    d: Vec3,
    depth: int,
)
    requires
        !nearest_spec(objects, bvh, o, d).is_intersecting,
    ensures
        cast_spec(objects, bvh, tx, o, d, depth) == sky_spec(d),
{
}

/// A ray that meets a surface which does not reflect is shaded without any
/// further ray.
pub proof fn lemma_matte_casts_no_ray(
    objects: Seq<Cube>,
    bvh: Option<&BVH>,
    tx: Option<&TextureManager>,
    o: Vec3,
    d: Vec3,
    depth: int,
)
    requires
        nearest_spec(objects, bvh, o, d).is_intersecting,
        nearest_spec(objects, bvh, o, d).material.reflectivity <= BLEND_MIN,
    ensures
        cast_spec(objects, bvh, tx, o, d, depth) == shade_spec(
            objects,
            tx,
            nearest_spec(objects, bvh, o, d),
            d,
            None,
        ),
{
}

/// Below the depth limit a mirror sends one reflection ray, one level deeper.
pub proof fn lemma_mirror_casts_one_ray(
    objects: Seq<Cube>,
    bvh: Option<&BVH>,
    tx: Option<&TextureManager>,
    o: Vec3,
    d: Vec3,
    depth: int,
)
    requires
        depth < MAX_DEPTH,
        nearest_spec(objects, bvh, o, d).is_intersecting,
        !nearest_spec(objects, bvh, o, d).material.unlit,
        nearest_spec(objects, bvh, o, d).material.reflectivity > BLEND_MIN,
    ensures
        ({
            let hit = nearest_spec(objects, bvh, o, d);
            cast_spec(objects, bvh, tx, o, d, depth) == shade_spec(
                objects,
                tx,
                hit,
                d,
                Some(
                    cast_spec(
                        objects,
                        bvh,
                        tx,
                        mirror_origin(hit),
                        mirror_dir(hit, d),
                        depth + 1,
                    ),
                ),
            )
        }),
{
}

fn sky_part(top: i64, bottom: i64, t: i64) -> (r: u8)
    requires
        0 <= bottom <= top <= 255,
        0 <= t <= SCALE,
    ensures
        r == sky_channel(top as int, bottom as int, t as int),
{
    let rest: i64 = 1_000_000 - t;
    assert(0 <= top * t <= 255 * 1_000_000 && 0 <= bottom * rest <= 255 * 1_000_000 && top * t
        + bottom * rest <= 255 * 1_000_000) by (nonlinear_arith)
        requires
            0 <= bottom <= top <= 255,
            0 <= t <= 1_000_000,
            rest == 1_000_000 - t,
    ;
    let a: i64 = top * t;
    let b: i64 = bottom * rest;
    let v: i64 = (a + b) / 1_000_000;
    v as u8
}

/// The colour of the sky in the direction `dir`: a gradient from the bottom
/// colour, straight down, to the top colour, straight up.
pub fn sample_sky(dir: &Vec3) -> (c: Color)
    ensures
        c == sky_spec(*dir),
{
    let t = fx_clamp(fx_mul(500_000, fx_add(dir.y, SCALE)), 0, SCALE);
    Color { r: sky_part(135, 40, t), g: sky_part(206, 70, t), b: sky_part(235, 120, t), a: 255 }
}

/// The colour of a material at the texture coordinates `(u, v)` on `face`.
pub fn sample_material(
    material: &Material,
    u: i64,
    v: i64,
    face: FaceId,
    tx: Option<&TextureManager>,
) -> (c: Color)
    ensures
        c == material_color(*material, u as int, v as int, face, tx),
{
    if let Some(tm) = tx {
        let su = fx_mul(u, material.uv_scale);
        let sv = fx_mul(v, material.uv_scale);
        if let Some(path) = &material.texture {
            if let Some(col) = tm.sample(path.as_str(), su, sv) {
                return col;
            }
        }
        if material.grass_like {
            match face {
                FaceId::Top => {
                    if let Some(col) = tm.sample("cesped.png", su, sv) {
                        return col;
                    }
                },
                FaceId::Left | FaceId::Right | FaceId::Front | FaceId::Back => {
                    if let Some(col) = tm.sample("cesped_de_lado.png", su, sv) {
                        return col;
                    }
                },
                _ => {},
            }
        }
    }
    material.diffuse
}

fn square(x: i64) -> (r: i64)
    ensures
        r == sq(x as int),
{
    fx_mul(x, x)
}

fn light() -> (l: Vec3)
    ensures
        l == light_dir(),
{
    Vec3::new(-600_000, 900_000, -400_000).normalize()
}

fn intensity(normal: &Vec3) -> (r: i64)
    ensures
        r == intensity_spec(*normal),
{
    let diff = fx_max(normal.dot(&light()), 0);
    fx_min(fx_add(AMBIENT, diff), SCALE)
}

fn lit(hit: &Intersect, dir: &Vec3, base: &Vec3) -> (r: Vec3)
    ensures
        r == lit_spec(*hit, *dir, *base),
{
    let flat = base.scale(intensity(&hit.normal));
    if hit.material.specular > 0 {
        let view = dir.neg().normalize();
        let mirrored = reflect(&light().neg(), &hit.normal).normalize();
        let angle = fx_max(view.dot(&mirrored), 0);
        let s = fx_mul(hit.material.specular, square(square(square(square(square(angle))))));
        flat.add(&Vec3::new(s, s, s))
    } else {
        flat
    }
}

fn blend(a: &Vec3, b: &Vec3, k: i64) -> (r: Vec3)
    ensures
        r == mix(*a, *b, k as int),
{
    a.scale(fx_sub(SCALE, k)).add(&b.scale(k))
}

fn seen_through(objects: &Vec<Cube>, tx: Option<&TextureManager>, hit: &Intersect, dir: &Vec3) -> (r:
    Vec3)
    ensures
        r == look_through(objects@, tx, *hit, *dir),
{
    let origin = hit.point.add(&dir.scale(10 * RAY_BIAS));
    let mut best = Intersect::empty();
    best.distance = FX_MAX;
    let mut k: usize = 0;
    while k < objects.len()
        invariant
            k <= objects.len(),
            best == scan_large(objects@, k as int, origin, *dir, no_hit_yet()),
        decreases objects.len() - k,
    {
        if objects[k].half_size.x >= LOOK_THROUGH_HALF {
            let tmp = objects[k].ray_intersect(&origin, dir);
            if tmp.is_intersecting && tmp.distance < best.distance {
                best = tmp;
            }
        }
        k = k + 1;
    }
    if best.is_intersecting {
        srgb_to_linear(sample_material(&best.material, best.uv.0, best.uv.1, best.face, tx))
    } else {
        color_levels(sample_sky(dir))
    }
}

fn reflected(c: Vec3, material: &Material, reflection: Option<Color>) -> (r: Vec3)
    ensures
        r == with_reflection(c, *material, reflection),
{
    match reflection {
        Some(rc) => blend(&c, &srgb_to_linear(rc), fx_clamp(material.reflectivity, 0, SCALE)),
        None => c,
    }
}

/// The colour of a hit. `reflection` is the colour that the reflection ray
/// returned, if one was cast.
pub fn shade(
    objects: &Vec<Cube>,
    tx: Option<&TextureManager>,
    hit: &Intersect,
    dir: &Vec3,
    reflection: Option<Color>,
) -> (c: Color)
    ensures
        c == shade_spec(objects@, tx, *hit, *dir, reflection),
{
    let base_col = sample_material(&hit.material, hit.uv.0, hit.uv.1, hit.face, tx);
    if hit.material.unlit {
        return base_col;
    }
    let base = srgb_to_linear(base_col);
    if hit.material.transparency > BLEND_MIN {
        let trans = fx_clamp(hit.material.transparency, 0, SCALE);
        let env = seen_through(objects, tx, hit, dir);
        let seen = blend(&base, &env, trans);
        let mirrored = reflected(seen, &hit.material, reflection);
        let wet = if hit.material.liquid {
            mirrored.scale(900_000).add(&Vec3::new(0, 30_000, 80_000).scale(100_000))
        } else {
            mirrored
        };
        tone_map(&wet.scale(intensity(&hit.normal)).scale(EXPOSURE))
    } else {
        let l = lit(hit, dir, &base);
        tone_map(&reflected(l, &hit.material, reflection).scale(EXPOSURE))
    }
}

/// Whether a hit on `material` at `depth` sends a reflection ray: the
/// material is lit, mirrors more than the least amount, and the depth is
/// below the limit.
pub fn sends_reflection(material: &Material, depth: i32) -> (r: bool)
    ensures
        r == reflects(*material, depth as int),
{
    !material.unlit && fx_clamp(material.reflectivity, 0, SCALE) > BLEND_MIN && depth < MAX_DEPTH
}

/// The nearest hit of the ray: through the hierarchy if there is one, else
/// by testing every box.
pub fn nearest_hit(objects: &Vec<Cube>, bvh: Option<&BVH>, orig: &Vec3, dir: &Vec3) -> (r: Intersect)
    requires
        bvh matches Some(b) ==> traversable(b.root, objects@, b.indices@),
    ensures
        r == nearest_spec(objects@, bvh, *orig, *dir),
{
    match bvh {
        Some(b) => intersect_bvh(b, objects, orig, dir),
        None => intersect_linear(objects, orig, dir),
    }
}

/// The colour that the ray from `cam_orig` along `dir` shows, at recursion
/// depth `depth`.
pub fn cast_ray_rec(
    cam_orig: &Vec3,
    dir: &Vec3,
    objects: &Vec<Cube>,
    bvh: Option<&BVH>,
    depth: i32,
    tx: Option<&TextureManager>,
) -> (c: Color)
    requires
        bvh matches Some(b) ==> traversable(b.root, objects@, b.indices@),
    ensures
        c == cast_spec(objects@, bvh, tx, *cam_orig, *dir, depth as int),
    decreases depth_left(depth as int),
{
    let hit = nearest_hit(objects, bvh, cam_orig, dir);
    if !hit.is_intersecting {
        return sample_sky(dir);
    }
    if sends_reflection(&hit.material, depth) {
        let reflect_dir = reflect(dir, &hit.normal).normalize();
        let reflect_origin = hit.point.add(&hit.normal.scale(RAY_BIAS));
        let refl = cast_ray_rec(&reflect_origin, &reflect_dir, objects, bvh, depth + 1, tx);
        shade(objects, tx, &hit, dir, Some(refl))
    } else {
        shade(objects, tx, &hit, dir, None)
    }
}

/// The colour that the camera ray from `cam_orig` along `dir` shows.
pub fn cast_ray(
    cam_orig: &Vec3,
    dir: &Vec3,
    objects: &Vec<Cube>,
    bvh: Option<&BVH>,
    tx: Option<&TextureManager>,
) -> (c: Color)
    requires
        bvh matches Some(b) ==> traversable(b.root, objects@, b.indices@),
    ensures
        c == cast_spec(objects@, bvh, tx, *cam_orig, *dir, 0),
{
    cast_ray_rec(cam_orig, dir, objects, bvh, 0, tx)
}

/// The colours that the camera rays from `cam_orig` along each of `dirs`
/// show, in the order of `dirs`.
pub fn trace_rays(
    cam_orig: &Vec3,
    dirs: &Vec<Vec3>,
    objects: &Vec<Cube>,
    bvh: Option<&BVH>,
    tx: Option<&TextureManager>,
) -> (colors: Vec<Color>)
    requires
        bvh matches Some(b) ==> traversable(b.root, objects@, b.indices@),
    ensures
        colors.len() == dirs.len(),
        forall|i: int|
            0 <= i < dirs.len() ==> colors[i] == cast_spec(objects@, bvh, tx, *cam_orig, dirs[i], 0),
{
    let mut colors: Vec<Color> = Vec::new();
    let mut i: usize = 0;
    while i < dirs.len()
        invariant
            i <= dirs.len(),
            colors.len() == i,
            bvh matches Some(b) ==> traversable(b.root, objects@, b.indices@),
                forall|k: int|
                0 <= k < i ==> colors[k] == cast_spec(objects@, bvh, tx, *cam_orig, dirs[k], 0),
        decreases dirs.len() - i,
    {
        let c = cast_ray(cam_orig, &dirs[i], objects, bvh, tx);
        colors.push(c);
        i = i + 1;
    }
    colors
}

/// Straight up the sky has its top colour, straight down its bottom colour.
pub proof fn lemma_sky_ends(dir: Vec3)
    ensures
        dir.y >= SCALE ==> sky_spec(dir) == (Color { r: 135, g: 206, b: 235, a: 255 }),
        dir.y <= -SCALE ==> sky_spec(dir) == (Color { r: 40, g: 70, b: 120, a: 255 }),
{
    let s = add_spec(dir.y as int, SCALE as int);
    if dir.y >= SCALE {
        assert(500_000 * s >= 500_000 * 2_000_000) by (nonlinear_arith)
            requires
                s >= 2_000_000,
        ;
        assert(mul_spec(500_000, s) >= SCALE);
    }
    if dir.y <= -SCALE {
        assert(500_000 * s <= 0) by (nonlinear_arith)
            requires
                s <= 0,
        ;
        assert(mul_spec(500_000, s) <= 0);
    }
}

} // verus!
