//! Why the hierarchy finds what a scan of every box finds, and how the test
//! of a box that is not turned relates to the test of its bounds.

use vstd::prelude::*;
use crate::bvh::{
    aabb_interval, axis_interval, bbox_of, bvh_wf, cube_bounds, enters, extents,
    lemma_node_bbox_tight, nearer, no_hit_yet, node_bbox, node_wf, range_valid, scan, scan_all,
    traverse_spec, BVHNode, BVH,
};
use crate::cube::{
    box_interval, cube_hit, hit_param, local_dir, local_origin, rot_y, slab, sphere_rejects, Cube,
};
use crate::fixed::{
    div_spec, lemma_div_grows, lemma_mul_one, lemma_mul_zero, sat, sub_spec, FX_MAX, FX_MIN, SCALE,
};
use crate::vec3::vsub;
use crate::ray_intersect::Intersect;
use crate::vec3::Vec3;

verus! {

/// The box `a` lies inside the box `b`.
pub open spec fn box_within(a: (Vec3, Vec3), b: (Vec3, Vec3)) -> bool {
    &&& b.0.x <= a.0.x
    &&& b.0.y <= a.0.y
    &&& b.0.z <= a.0.z
    &&& a.1.x <= b.1.x
    &&& a.1.y <= b.1.y
    &&& a.1.z <= b.1.z
}

/// Passing over boxes that the ray misses loses no hit of `c`: if the ray
/// hits `c`, it meets every box around the extent of `c`.
pub open spec fn cull_safe(c: Cube, o: Vec3, d: Vec3) -> bool {
    cube_hit(c, o, d).is_intersecting ==> forall|b: (Vec3, Vec3)|
        #[trigger] box_within(cube_bounds(c), b) ==> aabb_interval(o, d, b.0, b.1).is_some()
}

/// Passing over missed boxes loses no hit of any of `objects`.
pub open spec fn all_cull_safe(objects: Seq<Cube>, o: Vec3, d: Vec3) -> bool {
    forall|k: int| 0 <= k < objects.len() ==> cull_safe(#[trigger] objects[k], o, d)
}

/// What the ray meets of the box with number `k`.
pub open spec fn hit_of(objects: Seq<Cube>, k: int, o: Vec3, d: Vec3) -> Intersect {
    cube_hit(objects[k], o, d)
}

/// The union of a sequence of boxes holds each of them.
pub proof fn lemma_bbox_holds(s: Seq<(Vec3, Vec3)>, i: int)
    requires
        0 <= i < s.len(),
    ensures
        box_within(s[i], bbox_of(s)),
    decreases s.len(),
{
    if i < s.len() - 1 {
        lemma_bbox_holds(s.drop_last(), i);
    }
}

/// Scanning a range is scanning its first part and then the rest.
pub proof fn lemma_scan_split(
    objects: Seq<Cube>,
    indices: Seq<usize>,
    start: int,
    c1: int,
    c2: int,
    o: Vec3,
    d: Vec3,
    best: Intersect,
)
    requires
        0 <= c1,
        0 <= c2,
    ensures
        scan(objects, indices, start, c1 + c2, o, d, best) == scan(
            objects,
            indices,
            start + c1,
            c2,
            o,
            d,
            scan(objects, indices, start, c1, o, d, best),
        ),
    decreases c2,
{
    if c2 > 0 {
        lemma_scan_split(objects, indices, start, c1, c2 - 1, o, d, best);
    }
}

/// A scan of boxes that the ray all misses changes nothing.
pub proof fn lemma_scan_of_misses(
    objects: Seq<Cube>,
    indices: Seq<usize>,
    start: int,
    count: int,
    o: Vec3,
    d: Vec3,
    best: Intersect,
)
    requires
        forall|i: int|
            start <= i < start + count ==> !(#[trigger] hit_of(
                objects,
                indices[i] as int,
                o,
                d,
            )).is_intersecting,
    ensures
        scan(objects, indices, start, count, o, d, best) == best,
    decreases count,
{
    if count > 0 {
        lemma_scan_of_misses(objects, indices, start, count - 1, o, d, best);
        assert(!hit_of(objects, indices[start + count - 1] as int, o, d).is_intersecting);
    }
}

/// Visiting a well-formed node gives what a scan of its range gives, where
/// passing over missed boxes loses no hit.
pub proof fn lemma_traverse_is_scan(
    node: BVHNode,
    objects: Seq<Cube>,
    indices: Seq<usize>,
    start: int,
    count: int,
    o: Vec3,
    d: Vec3,
    best: Intersect,
)
    requires
        node_wf(node, objects, indices, start, count),
        range_valid(objects, indices, start, count),
        all_cull_safe(objects, o, d),
    ensures
        traverse_spec(node, objects, indices, o, d, best) == scan(
            objects,
            indices,
            start,
            count,
            o,
            d,
            best,
        ),
    decreases node,
{
    if !enters(node, o, d) {
        lemma_node_bbox_tight(node, objects, indices, start, count);
        let ex = extents(objects, indices, start, count);
        assert forall|i: int| start <= i < start + count implies !(#[trigger] hit_of(
            objects,
            indices[i] as int,
            o,
            d,
        )).is_intersecting by {
            let c = objects[indices[i] as int];
            lemma_bbox_holds(ex, i - start);
            assert(ex[i - start] == cube_bounds(c));
            assert(cull_safe(c, o, d));
            if cube_hit(c, o, d).is_intersecting {
                assert(box_within(cube_bounds(c), node_bbox(node)));
            }
        }
        lemma_scan_of_misses(objects, indices, start, count, o, d, best);
    } else {
        match node {
            BVHNode::Leaf { .. } => {},
            BVHNode::Node { left, right, .. } => {
                let half = count / 2;
                lemma_traverse_is_scan(*left, objects, indices, start, half, o, d, best);
                let mid = scan(objects, indices, start, half, o, d, best);
                lemma_traverse_is_scan(
                    *right,
                    objects,
                    indices,
                    start + half,
                    count - half,
                    o,
                    d,
                    mid,
                );
                lemma_scan_split(objects, indices, start, half, count - half, o, d, best);
            },
        }
    }
}

/// What a scan of a range returns: the record it started from, or a hit in
/// the range that is nearer than that; and no hit in the range is nearer
/// than what it returns.
pub proof fn lemma_scan_is_nearest(
    objects: Seq<Cube>,
    indices: Seq<usize>,
    start: int,
    count: int,
    o: Vec3,
    d: Vec3,
    best: Intersect,
)
    requires
        0 <= count,
    ensures
        ({
            let r = scan(objects, indices, start, count, o, d, best);
            &&& r.distance <= best.distance
            &&& r == best || exists|i: int|
                start <= i < start + count && r == #[trigger] hit_of(
                    objects,
                    indices[i] as int,
                    o,
                    d,
                ) && r.is_intersecting && r.distance < best.distance
            &&& forall|i: int|
                start <= i < start + count && (#[trigger] hit_of(
                    objects,
                    indices[i] as int,
                    o,
                    d,
                )).is_intersecting ==> r.distance <= hit_of(objects, indices[i] as int, o, d).distance
        }),
    decreases count,
{
    if count > 0 {
        lemma_scan_is_nearest(objects, indices, start, count - 1, o, d, best);
        let before = scan(objects, indices, start, count - 1, o, d, best);
        let last = hit_of(objects, indices[start + count - 1] as int, o, d);
        let r = scan(objects, indices, start, count, o, d, best);
        assert(r == nearer(before, last));
        if r != best {
            if r == before {
                let i = choose|i: int|
                    start <= i < start + count - 1 && before == #[trigger] hit_of(
                        objects,
                        indices[i] as int,
                        o,
                        d,
                    ) && before.is_intersecting && before.distance < best.distance;
                assert(r == hit_of(objects, indices[i] as int, o, d));
            } else {
                assert(r == hit_of(objects, indices[start + count - 1] as int, o, d));
            }
        }
    }
}

/// What a visit of a node returns: the record it started from, or a hit on
/// a box of the node's range that is nearer than that. Passing over boxes
/// invents no hit.
pub proof fn lemma_traverse_returns_hit(
    node: BVHNode,
    objects: Seq<Cube>,
    indices: Seq<usize>,
    start: int,
    count: int,
    o: Vec3,
    d: Vec3,
    best: Intersect,
)
    requires
        node_wf(node, objects, indices, start, count),
        0 <= count,
    ensures
        ({
            let r = traverse_spec(node, objects, indices, o, d, best);
            &&& r.distance <= best.distance
            &&& r == best || exists|i: int|
                start <= i < start + count && r == #[trigger] hit_of(
                    objects,
                    indices[i] as int,
                    o,
                    d,
                ) && r.is_intersecting && r.distance < best.distance
        }),
    decreases node,
{
    if enters(node, o, d) {
        match node {
            BVHNode::Leaf { .. } => {
                lemma_scan_is_nearest(objects, indices, start, count, o, d, best);
            },
            BVHNode::Node { left, right, .. } => {
                let half = count / 2;
                let mid = traverse_spec(*left, objects, indices, o, d, best);
                let r = traverse_spec(*right, objects, indices, o, d, mid);
                lemma_traverse_returns_hit(*left, objects, indices, start, half, o, d, best);
                lemma_traverse_returns_hit(
                    *right,
                    objects,
                    indices,
                    start + half,
                    count - half,
                    o,
                    d,
                    mid,
                );
                if r != best {
                    if r == mid {
                        let i = choose|i: int|
                            start <= i < start + half && mid == #[trigger] hit_of(
                                objects,
                                indices[i] as int,
                                o,
                                d,
                            ) && mid.is_intersecting && mid.distance < best.distance;
                        assert(r == hit_of(objects, indices[i] as int, o, d));
                    } else {
                        let i = choose|i: int|
                            start + half <= i < start + half + (count - half) && r
                                == #[trigger] hit_of(objects, indices[i] as int, o, d)
                                && r.is_intersecting && r.distance < mid.distance;
                        assert(r == hit_of(objects, indices[i] as int, o, d));
                    }
                }
            },
        }
    }
}

/// What a scan of the first `count` boxes returns: the record it started
/// from, or a hit among them that is nearer than that; and no hit among
/// them is nearer than what it returns.
pub proof fn lemma_scan_all_is_nearest(
    objects: Seq<Cube>,
    count: int,
    o: Vec3,
    d: Vec3,
    best: Intersect,
)
    requires
        0 <= count,
    ensures
        ({
            let r = scan_all(objects, count, o, d, best);
            &&& r.distance <= best.distance
            &&& r == best || exists|k: int|
                0 <= k < count && r == #[trigger] hit_of(objects, k, o, d) && r.is_intersecting
                    && r.distance < best.distance
            &&& forall|k: int|
                0 <= k < count && (#[trigger] hit_of(objects, k, o, d)).is_intersecting
                    ==> r.distance <= hit_of(objects, k, o, d).distance
        }),
    decreases count,
{
    if count > 0 {
        lemma_scan_all_is_nearest(objects, count - 1, o, d, best);
        let before = scan_all(objects, count - 1, o, d, best);
        let last = hit_of(objects, count - 1, o, d);
        let r = scan_all(objects, count, o, d, best);
        assert(r == nearer(before, last));
        if r != best {
            if r == before {
                let k = choose|k: int|
                    0 <= k < count - 1 && before == #[trigger] hit_of(objects, k, o, d)
                        && before.is_intersecting && before.distance < best.distance;
                assert(r == hit_of(objects, k, o, d));
            } else {
                assert(r == hit_of(objects, count - 1, o, d));
            }
        }
    }
}

/// The hierarchy finds a hit exactly when the scan of every box finds one,
/// and at the same distance, where passing over missed boxes loses no hit.
pub proof fn lemma_bvh_finds_nearest(bvh: BVH, objects: Seq<Cube>, o: Vec3, d: Vec3)
    requires
        bvh_wf(bvh, objects),
        all_cull_safe(objects, o, d),
        objects.len() <= usize::MAX,
    ensures
        ({
            let a = traverse_spec(bvh.root, objects, bvh.indices@, o, d, no_hit_yet());
            let b = scan_all(objects, objects.len() as int, o, d, no_hit_yet());
            a.is_intersecting == b.is_intersecting && a.distance == b.distance
        }),
{
    let n = objects.len() as int;
    let idx = bvh.indices@;
    let best = no_hit_yet();
    lemma_traverse_is_scan(bvh.root, objects, idx, 0, n, o, d, best);
    lemma_scan_is_nearest(objects, idx, 0, n, o, d, best);
    lemma_scan_all_is_nearest(objects, n, o, d, best);
    let a = scan(objects, idx, 0, n, o, d, best);
    let b = scan_all(objects, n, o, d, best);
    if a != best {
        let i = choose|i: int|
            0 <= i < n && a == #[trigger] hit_of(objects, idx[i] as int, o, d) && a.is_intersecting
                && a.distance < best.distance;
        let k = idx[i] as int;
        assert(hit_of(objects, k, o, d).is_intersecting);
        assert(b.distance <= a.distance);
        assert(b != best);
    }
    if b != best {
        let k = choose|k: int|
            0 <= k < n && b == #[trigger] hit_of(objects, k, o, d) && b.is_intersecting
                && b.distance < best.distance;
        assert(idx.contains(k as usize));
        let i = choose|i: int| 0 <= i < idx.len() && idx[i] == k as usize;
        assert(hit_of(objects, idx[i] as int, o, d).is_intersecting);
        assert(a.distance <= b.distance);
        assert(a != best);
    }
}

/// The largest size of a coordinate for which the laws on rays and boxes
/// are stated, a million million world units: below it no difference of
/// coordinates saturates. Beyond it the box and its bounds saturate at
/// different places, and their tests need not agree.
pub const COORD_LIMIT: i64 = 1_000_000_000_000_000_000;

/// Each component of `v` is at most `COORD_LIMIT` in size.
pub open spec fn bounded(v: Vec3) -> bool {
    &&& -COORD_LIMIT <= v.x <= COORD_LIMIT
    &&& -COORD_LIMIT <= v.y <= COORD_LIMIT
    &&& -COORD_LIMIT <= v.z <= COORD_LIMIT
}

/// The box is not turned, has no negative half size, and lies within the
/// coordinate limit.
pub open spec fn axis_aligned(c: Cube) -> bool {
    &&& c.rot_cos == SCALE
    &&& c.rot_sin == 0
    &&& c.half_size.x >= 0
    &&& c.half_size.y >= 0
    &&& c.half_size.z >= 0
    &&& bounded(c.center)
    &&& bounded(c.half_size)
}

/// A turn by the angle zero leaves a vector as it is.
pub proof fn lemma_rot_identity(v: Vec3)
    ensures
        rot_y(v, SCALE as int, 0) == v,
{
    lemma_mul_one(v.x as int);
    lemma_mul_one(v.z as int);
    lemma_mul_zero(v.x as int);
    lemma_mul_zero(v.z as int);
}

/// On one axis: where the ray is inside the slab of a box that is not
/// turned, it is inside the slab of any box around it.
pub proof fn lemma_slab_within(o: int, c: int, h: int, d: int, bmin: int, bmax: int)
    requires
        -COORD_LIMIT <= o <= COORD_LIMIT,
        -COORD_LIMIT <= c <= COORD_LIMIT,
        0 <= h <= COORD_LIMIT,
        FX_MIN <= d <= FX_MAX,
        FX_MIN <= bmin <= c - h,
        c + h <= bmax <= FX_MAX,
        slab(o - c, d, h).is_some(),
    ensures
        axis_interval(o, d, bmin, bmax).0 <= slab(o - c, d, h).unwrap().0,
        slab(o - c, d, h).unwrap().1 <= axis_interval(o, d, bmin, bmax).1,
{
    if d != 0 {
        let n1 = sub_spec(sat(-h), o - c);
        let n2 = sub_spec(h, o - c);
        let m1 = sub_spec(bmin, o);
        let m2 = sub_spec(bmax, o);
        assert(n1 == c - h - o);
        assert(n2 == c + h - o);
        assert(m1 <= n1 <= n2 <= m2);
        lemma_div_grows(m1, n1, d);
        lemma_div_grows(n1, n2, d);
        lemma_div_grows(n2, m2, d);
    }
}

/// Where the ray hits a box that is not turned, it meets every box around
/// the extent of that box: passing over missed boxes loses no hit.
pub proof fn lemma_axis_aligned_cull_safe(c: Cube, o: Vec3, d: Vec3)
    requires
        axis_aligned(c),
        bounded(o),
    ensures
        cull_safe(c, o, d),
{
    reveal(cube_hit);
    if cube_hit(c, o, d).is_intersecting {
        lemma_rot_identity(vsub(o, c.center));
        lemma_rot_identity(d);
        let lo = local_origin(c, o);
        let ld = local_dir(c, d);
        assert(ld == d);
        assert(lo == vsub(o, c.center));
        assert(box_interval(lo, ld, c.half_size).is_some());
        assert forall|b: (Vec3, Vec3)| #[trigger]
            box_within(cube_bounds(c), b) implies aabb_interval(o, d, b.0, b.1).is_some() by {
            lemma_slab_within(
                o.x as int,
                c.center.x as int,
                c.half_size.x as int,
                d.x as int,
                b.0.x as int,
                b.1.x as int,
            );
            lemma_slab_within(
                o.y as int,
                c.center.y as int,
                c.half_size.y as int,
                d.y as int,
                b.0.y as int,
                b.1.y as int,
            );
            lemma_slab_within(
                o.z as int,
                c.center.z as int,
                c.half_size.z as int,
                d.z as int,
                b.0.z as int,
                b.1.z as int,
            );
        }
    }
}

/// On one axis, the ray does not run along the slab outside of it.
pub open spec fn not_beside(o: int, c: int, h: int, d: int) -> bool {
    d == 0 ==> -h <= o - c <= h
}

/// The ray runs along no slab of the box outside of it.
pub open spec fn beside_no_slab(c: Cube, o: Vec3, d: Vec3) -> bool {
    &&& not_beside(o.x as int, c.center.x as int, c.half_size.x as int, d.x as int)
    &&& not_beside(o.y as int, c.center.y as int, c.half_size.y as int, d.y as int)
    &&& not_beside(o.z as int, c.center.z as int, c.half_size.z as int, d.z as int)
}

/// On one axis of a box that is not turned: the slab of the box and the
/// slab of its bounds give the same interval, unless the ray runs along
/// the slab outside of it, where the box has none.
pub proof fn lemma_slab_agrees(o: int, c: int, h: int, d: int)
    requires
        -COORD_LIMIT <= o <= COORD_LIMIT,
        -COORD_LIMIT <= c <= COORD_LIMIT,
        0 <= h <= COORD_LIMIT,
        FX_MIN <= d <= FX_MAX,
    ensures
        slab(o - c, d, h).is_some() <==> not_beside(o, c, h, d),
        slab(o - c, d, h) matches Some(s) ==> s == axis_interval(o, d, c - h, c + h),
{
}

/// For a box that is not turned, the interval of the ray inside the box is
/// the interval inside its bounds, unless the ray runs along a slab outside
/// of it, where the box has none.
pub proof fn lemma_intervals_agree(c: Cube, o: Vec3, d: Vec3)
    requires
        axis_aligned(c),
        bounded(o),
    ensures
        box_interval(local_origin(c, o), local_dir(c, d), c.half_size) == (if beside_no_slab(
            c,
            o,
            d,
        ) {
            aabb_interval(o, d, cube_bounds(c).0, cube_bounds(c).1)
        } else {
            None
        }),
{
    lemma_rot_identity(vsub(o, c.center));
    lemma_rot_identity(d);
    lemma_slab_agrees(o.x as int, c.center.x as int, c.half_size.x as int, d.x as int);
    lemma_slab_agrees(o.y as int, c.center.y as int, c.half_size.y as int, d.y as int);
    lemma_slab_agrees(o.z as int, c.center.z as int, c.half_size.z as int, d.z as int);
}

/// When a box that is not turned is hit: when its bounding sphere does not
/// rule it out, the ray runs along no slab outside of it, and the interval
/// of the ray inside its bounds reaches beyond the bias.
pub proof fn lemma_hit_iff_bounds_hit(c: Cube, o: Vec3, d: Vec3)
    requires
        axis_aligned(c),
        bounded(o),
    ensures
        cube_hit(c, o, d).is_intersecting <==> !sphere_rejects(c, o, d) && beside_no_slab(c, o, d)
            && (aabb_interval(o, d, cube_bounds(c).0, cube_bounds(c).1) matches Some(iv)
            && hit_param(iv.0, iv.1).is_some()),
{
    reveal(cube_hit);
    lemma_intervals_agree(c, o, d);
}

/// Half a unit.
pub const STEEP: i64 = 500_000;

/// The direction has a component of at least half a unit in size, as every
/// direction of unit length has.
pub open spec fn steep(d: Vec3) -> bool {
    ||| d.x <= -STEEP || d.x >= STEEP
    ||| d.y <= -STEEP || d.y >= STEEP
    ||| d.z <= -STEEP || d.z >= STEEP
}

/// The quotient of a difference of coordinates by a direction component
/// of at least half a unit does not saturate.
pub proof fn lemma_quotient_finite(n: int, d: int)
    requires
        -3 * COORD_LIMIT <= n <= 3 * COORD_LIMIT,
        d <= -STEEP || d >= STEEP,
    ensures
        FX_MIN < div_spec(n, d) < FX_MAX,
{
    let m = if n < 0 {
        -n * SCALE
    } else {
        n * SCALE
    };
    let e = if d < 0 {
        -d
    } else {
        d
    };
    assert(0 <= m / e <= 6_000_000_000_000_000_000) by (nonlinear_arith)
        requires
            0 <= m <= 3_000_000_000_000_000_000_000_000,
            e >= 500_000,
    ;
}

/// On one axis of a box that is not turned: the interval of a ray that
/// runs along the slab outside of it lies at one end of the range, and the
/// interval of a ray that crosses the slab steeply lies strictly inside.
pub proof fn lemma_axis_ends(o: int, c: int, h: int, d: int)
    requires
        -COORD_LIMIT <= o <= COORD_LIMIT,
        -COORD_LIMIT <= c <= COORD_LIMIT,
        0 <= h <= COORD_LIMIT,
        FX_MIN <= d <= FX_MAX,
    ensures
        !not_beside(o, c, h, d) ==> axis_interval(o, d, c - h, c + h).0 == FX_MAX || axis_interval(
            o,
            d,
            c - h,
            c + h,
        ).1 == FX_MIN,
        d <= -STEEP || d >= STEEP ==> FX_MIN < axis_interval(o, d, c - h, c + h).0
            && axis_interval(o, d, c - h, c + h).1 < FX_MAX,
{
    if d <= -STEEP || d >= STEEP {
        lemma_quotient_finite(sub_spec(c - h, o), d);
        lemma_quotient_finite(sub_spec(c + h, o), d);
    }
}

/// A steep ray that runs along a slab of a box that is not turned, outside
/// of it, gets no interval from the box's bounds: the box's own test and
/// the test on its bounds agree that it passes by.
pub proof fn lemma_beside_means_none(c: Cube, o: Vec3, d: Vec3)
    requires
        axis_aligned(c),
        bounded(o),
        steep(d),
        !beside_no_slab(c, o, d),
    ensures
        aabb_interval(o, d, cube_bounds(c).0, cube_bounds(c).1).is_none(),
        !cube_hit(c, o, d).is_intersecting,
{
    lemma_axis_ends(o.x as int, c.center.x as int, c.half_size.x as int, d.x as int);
    lemma_axis_ends(o.y as int, c.center.y as int, c.half_size.y as int, d.y as int);
    lemma_axis_ends(o.z as int, c.center.z as int, c.half_size.z as int, d.z as int);
    lemma_hit_iff_bounds_hit(c, o, d);
}

/// When a steep ray hits a box that is not turned: when the bounding sphere
/// does not rule the box out and the interval of the ray inside the box's
/// bounds reaches beyond the bias.
pub proof fn lemma_steep_hit_iff_bounds_hit(c: Cube, o: Vec3, d: Vec3)
    requires
        axis_aligned(c),
        bounded(o),
        steep(d),
    ensures
        cube_hit(c, o, d).is_intersecting <==> !sphere_rejects(c, o, d) && (aabb_interval(
            o,
            d,
            cube_bounds(c).0,
            cube_bounds(c).1,
        ) matches Some(iv) && hit_param(iv.0, iv.1).is_some()),
{
    lemma_hit_iff_bounds_hit(c, o, d);
    if !beside_no_slab(c, o, d) {
        lemma_beside_means_none(c, o, d);
    }
}

/// A hit on a box that is not turned is a hit on its extent: the slab test
/// of the ray against the box's own bounds gives an interval.
pub proof fn lemma_hit_means_bounds_hit(c: Cube, o: Vec3, d: Vec3)
    requires
        axis_aligned(c),
        bounded(o),
        cube_hit(c, o, d).is_intersecting,
    ensures
        aabb_interval(o, d, cube_bounds(c).0, cube_bounds(c).1).is_some(),
{
    lemma_axis_aligned_cull_safe(c, o, d);
    assert(box_within(cube_bounds(c), cube_bounds(c)));
}

/// Over boxes that are not turned, the hierarchy finds a hit exactly when
/// the scan of every box finds one, and at the same distance.
pub proof fn lemma_bvh_matches_scan(bvh: BVH, objects: Seq<Cube>, o: Vec3, d: Vec3)
    requires
        bvh_wf(bvh, objects),
        objects.len() <= usize::MAX,
        forall|k: int| 0 <= k < objects.len() ==> axis_aligned(#[trigger] objects[k]),
        bounded(o),
    ensures
        ({
            let a = traverse_spec(bvh.root, objects, bvh.indices@, o, d, no_hit_yet());
            let b = scan_all(objects, objects.len() as int, o, d, no_hit_yet());
            a.is_intersecting == b.is_intersecting && a.distance == b.distance
        }),
{
    assert forall|k: int| 0 <= k < objects.len() implies cull_safe(#[trigger] objects[k], o, d) by {
        lemma_axis_aligned_cull_safe(objects[k], o, d);
    }
    lemma_bvh_finds_nearest(bvh, objects, o, d);
}

/// The point at height `up` straight above the centre of `c`.
pub open spec fn above(c: Cube, up: int) -> Vec3 {
    Vec3 { x: c.center.x, y: (c.center.y + up) as i64, z: c.center.z }
}

/// The direction straight down, of unit length.
pub open spec fn straight_down() -> Vec3 {
    Vec3 { x: 0, y: -SCALE as i64, z: 0 }
}

/// Half the extent, as a fraction of it, is a half; of no extent, nothing.
pub proof fn lemma_frac_of_middle(h: int)
    requires
        0 <= h <= COORD_LIMIT,
    ensures
        crate::cube::frac(0, h) == (if h > 0 {
            500_000int
        } else {
            0
        }),
{
    if h > 0 {
        assert(h * SCALE == (2 * h) * 500_000) by (nonlinear_arith);
        vstd::arithmetic::div_mod::lemma_div_multiples_vanish(500_000, 2 * h);
        assert((2 * h) * 500_000 == 500_000 * (2 * h)) by (nonlinear_arith);
    }
}

/// A ray straight down from above the centre of a box that is not turned
/// hits its top face, at the distance down to it, in the middle of the
/// face: both texture coordinates lie between 0 and 1.
pub proof fn lemma_straight_down_hits_top(c: Cube, up: int)
    requires
        axis_aligned(c),
        c.half_size.x >= crate::cube::FACE_TOL,
        c.half_size.y + crate::cube::HIT_BIAS < up <= COORD_LIMIT,
    ensures
        ({
            let r = cube_hit(c, above(c, up), straight_down());
            &&& r.is_intersecting
            &&& r.face == crate::ray_intersect::FaceId::Top
            &&& r.distance == up - c.half_size.y
            &&& r.point == (Vec3 {
                x: c.center.x,
                y: (c.center.y + c.half_size.y) as i64,
                z: c.center.z,
            })
            &&& r.uv.1 == 500_000
            &&& r.uv.0 == (if c.half_size.z > 0 {
                500_000i64
            } else {
                0
            })
            &&& 0 <= r.uv.0 <= SCALE && 0 <= r.uv.1 <= SCALE
        }),
{
    reveal(cube_hit);
    let o = above(c, up);
    let d = straight_down();
    let half = c.half_size;
    let t = up - half.y;
    lemma_mul_zero(up);
    lemma_mul_zero(t);
    lemma_mul_zero(0);
    lemma_mul_zero(-SCALE);
    assert(0 * up == 0 && up * 0 == 0 && 0 * t == 0 && t * 0 == 0) by (nonlinear_arith);
    crate::fixed::lemma_mul_minus_one(up);
    crate::fixed::lemma_mul_minus_one(-up);
    crate::fixed::lemma_mul_minus_one(t);
    // the nearest point of the ray to the centre is the centre itself
    let to_center = vsub(c.center, o);
    assert(to_center == (Vec3 { x: 0, y: (-up) as i64, z: 0 }));
    assert(crate::fixed::mul_spec(-up, -SCALE) == up);
    assert(crate::vec3::vdot(to_center, d) == up);
    assert(crate::fixed::mul_spec(-SCALE, up) == -up);
    assert(crate::vec3::vscale(d, up) == (Vec3 { x: 0, y: (-up) as i64, z: 0 }));
    let closest = crate::vec3::vadd(o, crate::vec3::vscale(d, up));
    assert(closest == c.center);
    let off = vsub(closest, c.center);
    assert(off == (Vec3 { x: 0, y: 0, z: 0 }));
    assert(crate::vec3::vdot(off, off) == 0);
    let r = c.radius as int;
    assert(r * r >= 0) by (nonlinear_arith);
    assert(crate::fixed::mul_spec(r, r) >= 0);
    assert(!sphere_rejects(c, o, d));
    // the ray in the box's frame
    lemma_rot_identity(vsub(o, c.center));
    lemma_rot_identity(d);
    let lo = local_origin(c, o);
    let ld = local_dir(c, d);
    assert(lo == (Vec3 { x: 0, y: up as i64, z: 0 }));
    assert(ld == d);
    assert(slab(0, 0, half.x as int) == Some((FX_MIN as int, FX_MAX as int)));
    assert(slab(0, 0, half.z as int) == Some((FX_MIN as int, FX_MAX as int)));
    assert(div_spec(-half.y - up, -SCALE) == half.y + up);
    assert(div_spec(half.y - up, -SCALE) == up - half.y);
    assert(slab(up, -SCALE, half.y as int) == Some((up - half.y, up + half.y)));
    assert(box_interval(lo, ld, half) == Some((t, up + half.y)));
    assert(hit_param(t, up + half.y) == Some(t));
    // the hit point and its face
    assert(crate::fixed::mul_spec(-SCALE, t) == -t);
    assert(crate::vec3::vscale(ld, t) == (Vec3 { x: 0, y: (-t) as i64, z: 0 }));
    let h = crate::vec3::vadd(lo, crate::vec3::vscale(ld, t));
    assert(h == (Vec3 { x: 0, y: half.y, z: 0 }));
    let n = crate::cube::local_normal(h, half);
    assert(!crate::cube::near(0, half.x as int));
    assert(!crate::cube::near(0, sat(-(half.x as int))));
    assert(crate::cube::near(half.y as int, half.y as int));
    assert(n == (Vec3 { x: 0, y: SCALE, z: 0 }));
    assert(crate::cube::face_of(n) == crate::ray_intersect::FaceId::Top);
    lemma_frac_of_middle(half.x as int);
    lemma_frac_of_middle(half.z as int);
    assert(cube_hit(c, o, d) == crate::cube::hit_at(c, o, d, t));
    assert(crate::vec3::vadd(o, crate::vec3::vscale(d, t)) == (Vec3 {
        x: c.center.x,
        y: (c.center.y + half.y) as i64,
        z: c.center.z,
    }));
}

} // verus!
