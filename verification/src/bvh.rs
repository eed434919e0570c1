//! The bounding-volume hierarchy: axis-aligned boxes, its construction and
//! its traversal.

use vstd::prelude::*;
use crate::cube::{cube_hit, Cube};
use crate::fixed::{
    div_spec, fx_div, fx_max, fx_min, fx_sub, max_spec, min_spec, sub_spec, FX_MAX, FX_MIN,
};
use crate::ray_intersect::{miss, Intersect};
use crate::vec3::{vadd, vsub, Vec3};

verus! {

/// A node holds at most this many boxes before it is split.
pub const LEAF_SIZE: usize = 8;

/// The box that holds nothing: the identity of the union.
pub open spec fn empty_box() -> (Vec3, Vec3) {
    (Vec3 { x: FX_MAX, y: FX_MAX, z: FX_MAX }, Vec3 { x: FX_MIN, y: FX_MIN, z: FX_MIN })
}

/// The componentwise minimum.
pub open spec fn vmin(a: Vec3, b: Vec3) -> Vec3 {
    Vec3 {
        x: min_spec(a.x as int, b.x as int) as i64,
        y: min_spec(a.y as int, b.y as int) as i64,
        z: min_spec(a.z as int, b.z as int) as i64,
    }
}

/// The componentwise maximum.
pub open spec fn vmax(a: Vec3, b: Vec3) -> Vec3 {
    Vec3 {
        x: max_spec(a.x as int, b.x as int) as i64,
        y: max_spec(a.y as int, b.y as int) as i64,
        z: max_spec(a.z as int, b.z as int) as i64,
    }
}

/// The smallest box that holds both `a` and `b`.
pub open spec fn box_union(a: (Vec3, Vec3), b: (Vec3, Vec3)) -> (Vec3, Vec3) {
    (vmin(a.0, b.0), vmax(a.1, b.1))
}

/// The axis-aligned extent of a box, its turn disregarded.
pub open spec fn cube_bounds(c: Cube) -> (Vec3, Vec3) {
    (vsub(c.center, c.half_size), vadd(c.center, c.half_size))
}

/// The degenerate box at a box's centre.
pub open spec fn cube_center(c: Cube) -> (Vec3, Vec3) {
    (c.center, c.center)
}

/// The union of a sequence of boxes, taken from the left.
pub open spec fn bbox_of(boxes: Seq<(Vec3, Vec3)>) -> (Vec3, Vec3)
    decreases boxes.len(),
{
    if boxes.len() == 0 {
        empty_box()
    } else {
        box_union(bbox_of(boxes.drop_last()), boxes.last())
    }
}

/// The extents of the boxes that `indices` names from `start` on, `count` of them.
pub open spec fn extents(objects: Seq<Cube>, indices: Seq<usize>, start: int, count: int) -> Seq<
    (Vec3, Vec3),
> {
    Seq::new(count as nat, |k: int| cube_bounds(objects[indices[start + k] as int]))
}

/// The centres of the boxes that `indices` names from `start` on, `count` of them.
pub open spec fn centers(objects: Seq<Cube>, indices: Seq<usize>, start: int, count: int) -> Seq<
    (Vec3, Vec3),
> {
    Seq::new(count as nat, |k: int| cube_center(objects[indices[start + k] as int]))
}

/// Every entry of `indices` from `start` on, `count` of them, names a box.
pub open spec fn range_valid(objects: Seq<Cube>, indices: Seq<usize>, start: int, count: int)
    -> bool {
    &&& 0 <= start
    &&& 0 <= count
    &&& start + count <= indices.len()
    &&& forall|i: int| start <= i < start + count ==> (#[trigger] indices[i]) < objects.len()
}

/// The axis on which the box from `min` to `max` is longest: 0, 1 or 2.
/// Of equal extents the earlier axis wins.
pub open spec fn longest_axis_spec(min: Vec3, max: Vec3) -> int {
    let dx = sub_spec(max.x as int, min.x as int);
    let dy = sub_spec(max.y as int, min.y as int);
    let dz = sub_spec(max.z as int, min.z as int);
    if dx >= dy && dx >= dz {
        0
    } else if dy >= dz {
        1
    } else {
        2
    }
}

/// The parameter at which a ray reaches a plane that lies `n` ahead of its
/// origin, along a direction component `d`. A component of zero stands for
/// an infinite inverse: the plane is never reached, and the parameter lies
/// at the end of the range on the side of `n`. A ray that runs in the plane
/// itself (`n` and `d` both zero) takes the end `graze`.
pub open spec fn crossing(n: int, d: int, graze: int) -> int {
    if d == 0 && n == 0 {
        graze
    } else {
        div_spec(n, d)
    }
}

/// The parameters at which a ray with origin coordinate `o` and direction
/// component `d` is between `lo` and `hi`: from the smaller to the larger
/// of the two crossings. A ray along the slab is inside it throughout if it
/// starts between the planes or in one of them, and never if it starts
/// outside: both crossings then lie at the same end of the range.
pub open spec fn axis_interval(o: int, d: int, lo: int, hi: int) -> (int, int) {
    let t1 = crossing(sub_spec(lo, o), d, FX_MIN as int);
    let t2 = crossing(sub_spec(hi, o), d, FX_MAX as int);
    (min_spec(t1, t2), max_spec(t1, t2))
}

/// The parameters at which the ray is inside the box on all three axes.
pub open spec fn aabb_interval(o: Vec3, d: Vec3, bmin: Vec3, bmax: Vec3) -> Option<(int, int)> {
    let ix = axis_interval(o.x as int, d.x as int, bmin.x as int, bmax.x as int);
    let iy = axis_interval(o.y as int, d.y as int, bmin.y as int, bmax.y as int);
    let iz = axis_interval(o.z as int, d.z as int, bmin.z as int, bmax.z as int);
    let tmin = max_spec(max_spec(ix.0, iy.0), iz.0);
    let tmax = min_spec(min_spec(ix.1, iy.1), iz.1);
    if tmin <= tmax {
        Some((tmin, tmax))
    } else {
        None
    }
}

/// The union of two boxes given by their corners.
pub fn union_bbox(a_min: &Vec3, a_max: &Vec3, b_min: &Vec3, b_max: &Vec3) -> (r: (Vec3, Vec3))
    ensures
        r == box_union((*a_min, *a_max), (*b_min, *b_max)),
{
    let min = Vec3::new(fx_min(a_min.x, b_min.x), fx_min(a_min.y, b_min.y), fx_min(a_min.z, b_min.z));
    let max = Vec3::new(fx_max(a_max.x, b_max.x), fx_max(a_max.y, b_max.y), fx_max(a_max.z, b_max.z));
    (min, max)
}

/// The union of the extents of the boxes that `indices` names from `start`
/// on, `count` of them.
pub fn bbox_for_indices(objects: &Vec<Cube>, indices: &Vec<usize>, start: usize, count: usize) -> (r:
    (Vec3, Vec3))
    requires
        range_valid(objects@, indices@, start as int, count as int),
    ensures
        r == bbox_of(extents(objects@, indices@, start as int, count as int)),
{
    let mut bmin = Vec3::new(FX_MAX, FX_MAX, FX_MAX);
    let mut bmax = Vec3::new(FX_MIN, FX_MIN, FX_MIN);
    let mut k: usize = 0;
    while k < count
        invariant
            k <= count,
            start + count <= indices.len(),
            range_valid(objects@, indices@, start as int, count as int),
            (bmin, bmax) == bbox_of(extents(objects@, indices@, start as int, k as int)),
        decreases count - k,
    {
        let obj = &objects[indices[start + k]];
        let min = obj.center.sub(&obj.half_size);
        let max = obj.center.add(&obj.half_size);
        proof {
            let next = extents(objects@, indices@, start as int, k + 1);
            assert(next.drop_last() =~= extents(objects@, indices@, start as int, k as int));
            assert(next.last() == cube_bounds(*obj));
        }
        let u = union_bbox(&bmin, &bmax, &min, &max);
        bmin = u.0;
        bmax = u.1;
        k = k + 1;
    }
    (bmin, bmax)
}

/// The union of the centres of the boxes that `indices` names from `start`
/// on, `count` of them.
pub fn centroid_bbox(objects: &Vec<Cube>, indices: &Vec<usize>, start: usize, count: usize) -> (r: (
    Vec3,
    Vec3,
))
    requires
        range_valid(objects@, indices@, start as int, count as int),
    ensures
        r == bbox_of(centers(objects@, indices@, start as int, count as int)),
{
    let mut cmin = Vec3::new(FX_MAX, FX_MAX, FX_MAX);
    let mut cmax = Vec3::new(FX_MIN, FX_MIN, FX_MIN);
    let mut k: usize = 0;
    while k < count
        invariant
            k <= count,
            start + count <= indices.len(),
            range_valid(objects@, indices@, start as int, count as int),
            (cmin, cmax) == bbox_of(centers(objects@, indices@, start as int, k as int)),
        decreases count - k,
    {
        let c = objects[indices[start + k]].center;
        proof {
            let next = centers(objects@, indices@, start as int, k + 1);
            assert(next.drop_last() =~= centers(objects@, indices@, start as int, k as int));
            assert(next.last() == (c, c));
        }
        let u = union_bbox(&cmin, &cmax, &c, &c);
        cmin = u.0;
        cmax = u.1;
        k = k + 1;
    }
    (cmin, cmax)
}

/// The axis on which the box from `min` to `max` is longest.
pub fn longest_axis(min: &Vec3, max: &Vec3) -> (axis: usize)
    ensures
        axis == longest_axis_spec(*min, *max),
        axis < 3,
{
    let dx = fx_sub(max.x, min.x);
    let dy = fx_sub(max.y, min.y);
    let dz = fx_sub(max.z, min.z);
    if dx >= dy && dx >= dz {
        0
    } else if dy >= dz {
        1
    } else {
        2
    }
}

fn cross(n: i64, d: i64, graze: i64) -> (t: i64)
    ensures
        t == crossing(n as int, d as int, graze as int),
{
    if d == 0 && n == 0 {
        graze
    } else {
        fx_div(n, d)
    }
}

fn axis_span(o: i64, d: i64, lo: i64, hi: i64) -> (r: (i64, i64))
    ensures
        r.0 == axis_interval(o as int, d as int, lo as int, hi as int).0,
        r.1 == axis_interval(o as int, d as int, lo as int, hi as int).1,
{
    let t1 = cross(fx_sub(lo, o), d, FX_MIN);
    let t2 = cross(fx_sub(hi, o), d, FX_MAX);
    (fx_min(t1, t2), fx_max(t1, t2))
}

/// The slab test of a ray against an axis-aligned box: the interval of ray
/// parameters inside the box, if there is any. A ray that runs along a slab
/// beside it meets no box: its interval on that axis lies at one end of the
/// range, and is empty against any axis that the ray crosses.
pub fn ray_intersect_aabb(orig: &Vec3, dir: &Vec3, bmin: &Vec3, bmax: &Vec3) -> (r: Option<
    (i64, i64),
>)
    ensures
        match aabb_interval(*orig, *dir, *bmin, *bmax) {
            Some(iv) => r.is_some() && r.unwrap().0 == iv.0 && r.unwrap().1 == iv.1,
            None => r.is_none(),
        },
{
    let ix = axis_span(orig.x, dir.x, bmin.x, bmax.x);
    let mut tmin = ix.0;
    let mut tmax = ix.1;
    let iy = axis_span(orig.y, dir.y, bmin.y, bmax.y);
    if tmin > iy.1 || iy.0 > tmax {
        return None;
    }
    if iy.0 > tmin {
        tmin = iy.0;
    }
    if iy.1 < tmax {
        tmax = iy.1;
    }
    let iz = axis_span(orig.z, dir.z, bmin.z, bmax.z);
    if tmin > iz.1 || iz.0 > tmax {
        return None;
    }
    if iz.0 > tmin {
        tmin = iz.0;
    }
    if iz.1 < tmax {
        tmax = iz.1;
    }
    Some((tmin, tmax))
}

/// The coordinate of a box's centre on `axis`.
pub open spec fn axis_key(c: Cube, axis: int) -> int {
    if axis == 0 {
        c.center.x as int
    } else if axis == 1 {
        c.center.y as int
    } else {
        c.center.z as int
    }
}

/// The sort key of the box named at position `i`.
pub open spec fn key_at(objects: Seq<Cube>, indices: Seq<usize>, i: int, axis: int) -> int {
    axis_key(objects[indices[i] as int], axis)
}

/// The boxes named at the positions from `start` up to `end` come in
/// ascending order of their centre's coordinate on `axis`.
pub open spec fn sorted_on(objects: Seq<Cube>, indices: Seq<usize>, start: int, end: int, axis: int)
    -> bool {
    forall|p: int, q: int|
        start <= p <= q < end ==> key_at(objects, indices, p, axis) <= key_at(
            objects,
            indices,
            q,
            axis,
        )
}

/// Each of the numbers below `n` occurs in `s` exactly once.
pub open spec fn is_permutation(s: Seq<usize>, n: int) -> bool {
    &&& s.len() == n
    &&& forall|i: int| 0 <= i < n ==> (#[trigger] s[i]) < n
    &&& forall|i: int, j: int| 0 <= i < j < n ==> s[i] != s[j]
    &&& forall|k: usize| k < n ==> #[trigger] s.contains(k)
}

/// `v` stands at one of the positions of `s` from `start` on, `count` of them.
pub open spec fn in_range(s: Seq<usize>, start: int, count: int, v: usize) -> bool {
    exists|j: int| start <= j < start + count && s[j] == v
}

/// `after` differs from `before` only at the positions from `start` on,
/// `count` of them, and every entry there was there before.
pub open spec fn rearranged(before: Seq<usize>, after: Seq<usize>, start: int, count: int) -> bool {
    &&& after.len() == before.len()
    &&& forall|i: int|
        0 <= i < after.len() && !(start <= i < start + count) ==> #[trigger] after[i] == before[i]
    &&& forall|i: int|
        start <= i < start + count ==> in_range(before, start, count, #[trigger] after[i])
}

/// The union of boxes does not depend on how they are grouped.
pub proof fn lemma_bbox_concat(a: Seq<(Vec3, Vec3)>, b: Seq<(Vec3, Vec3)>)
    ensures
        bbox_of(a + b) == box_union(bbox_of(a), bbox_of(b)),
    decreases b.len(),
{
    if b.len() == 0 {
        assert(a + b =~= a);
    } else {
        assert((a + b).drop_last() =~= a + b.drop_last());
        assert((a + b).last() == b.last());
        lemma_bbox_concat(a, b.drop_last());
    }
}

/// Exchanging two neighbours in a sequence of boxes leaves their union as it was.
pub proof fn lemma_bbox_swap(s: Seq<(Vec3, Vec3)>, k: int)
    requires
        0 <= k,
        k + 1 < s.len(),
    ensures
        bbox_of(s.update(k, s[k + 1]).update(k + 1, s[k])) == bbox_of(s),
    decreases s.len(),
{
    let t = s.update(k, s[k + 1]).update(k + 1, s[k]);
    if k + 1 == s.len() - 1 {
        let head = s.drop_last().drop_last();
        assert(t.drop_last().drop_last() =~= head);
        assert(t.drop_last().last() == s[k + 1]);
        assert(s.drop_last().last() == s[k]);
        assert(bbox_of(t.drop_last()) == box_union(bbox_of(head), s[k + 1]));
        assert(bbox_of(s.drop_last()) == box_union(bbox_of(head), s[k]));
    } else {
        assert(t.drop_last() =~= s.drop_last().update(k, s[k + 1]).update(k + 1, s[k]));
        lemma_bbox_swap(s.drop_last(), k);
    }
}

/// A sequence is a rearrangement of itself.
proof fn lemma_rearranged_refl(s: Seq<usize>, start: int, count: int)
    requires
        0 <= start,
        start + count <= s.len(),
    ensures
        rearranged(s, s, start, count),
{
    assert forall|i: int| start <= i < start + count implies in_range(
        s,
        start,
        count,
        #[trigger] s[i],
    ) by {}
}

/// Exchanging two neighbouring entries of a range keeps the permutation, the
/// contents of the range and the union of the centres it names.
proof fn lemma_swap_step(
    objects: Seq<Cube>,
    orig: Seq<usize>,
    cur: Seq<usize>,
    next: Seq<usize>,
    start: int,
    count: int,
    j: int,
)
    requires
        0 <= start <= j - 1,
        j < start + count,
        start + count <= cur.len(),
        next == cur.update(j - 1, cur[j]).update(j, cur[j - 1]),
        is_permutation(cur, objects.len() as int),
        rearranged(orig, cur, start, count),
    ensures
        is_permutation(next, objects.len() as int),
        rearranged(orig, next, start, count),
        bbox_of(centers(objects, next, start, count)) == bbox_of(
            centers(objects, cur, start, count),
        ),
{
    let n = objects.len() as int;
    assert forall|k: usize| k < n implies #[trigger] next.contains(k) by {
        assert(cur.contains(k));
        let i0 = choose|i: int| 0 <= i < n && cur[i] == k;
        let i1 = if i0 == j - 1 {
            j
        } else if i0 == j {
            j - 1
        } else {
            i0
        };
        assert(next[i1] == k);
    }
    assert forall|i: int| start <= i < start + count implies in_range(
        orig,
        start,
        count,
        #[trigger] next[i],
    ) by {
        let i1 = if i == j - 1 {
            j
        } else if i == j {
            j - 1
        } else {
            i
        };
        assert(next[i] == cur[i1]);
        assert(in_range(orig, start, count, cur[i1]));
    }
    let c = centers(objects, cur, start, count);
    let k = j - 1 - start;
    assert(centers(objects, next, start, count) =~= c.update(k, c[k + 1]).update(k + 1, c[k]));
    lemma_bbox_swap(c, k);
}

fn key_of(objects: &Vec<Cube>, idx: usize, axis: usize) -> (k: i64)
    requires
        idx < objects.len(),
    ensures
        k == axis_key(objects@[idx as int], axis as int),
{
    if axis == 0 {
        objects[idx].center.x
    } else if axis == 1 {
        objects[idx].center.y
    } else {
        objects[idx].center.z
    }
}

/// Sorts the entries of `indices` from `start` on, `count` of them, by the
/// coordinate of the named box's centre on `axis`.
fn sort_range(objects: &Vec<Cube>, indices: &mut Vec<usize>, start: usize, count: usize, axis: usize)
    requires
        start + count <= old(indices).len(),
        is_permutation(old(indices)@, objects.len() as int),
    ensures
        is_permutation(final(indices)@, objects.len() as int),
        rearranged(old(indices)@, final(indices)@, start as int, count as int),
        sorted_on(objects@, final(indices)@, start as int, start + count, axis as int),
        bbox_of(centers(objects@, final(indices)@, start as int, count as int)) == bbox_of(
            centers(objects@, old(indices)@, start as int, count as int),
        ),
{
    let ghost orig = indices@;
    proof {
        lemma_rearranged_refl(orig, start as int, count as int);
    }
    if count < 2 {
        return ;
    }
    let end = start + count;
    let mut i: usize = start + 1;
    while i < end
        invariant
            start < i <= end,
            end == start + count,
            end <= indices.len(),
            is_permutation(indices@, objects.len() as int),
            rearranged(orig, indices@, start as int, count as int),
            sorted_on(objects@, indices@, start as int, i as int, axis as int),
            bbox_of(centers(objects@, indices@, start as int, count as int)) == bbox_of(
                centers(objects@, orig, start as int, count as int),
            ),
        decreases end - i,
    {
        let mut j: usize = i;
        let mut go: bool = key_of(objects, indices[j - 1], axis) > key_of(objects, indices[j], axis);
        while go
            invariant
                start <= j <= i < end,
                end == start + count,
                end <= indices.len(),
                is_permutation(indices@, objects.len() as int),
                rearranged(orig, indices@, start as int, count as int),
                bbox_of(centers(objects@, indices@, start as int, count as int)) == bbox_of(
                    centers(objects@, orig, start as int, count as int),
                ),
                forall|p: int, q: int|
                    start <= p <= q <= i && p != j && q != j ==> key_at(
                        objects@,
                        indices@,
                        p,
                        axis as int,
                    ) <= key_at(objects@, indices@, q, axis as int),
                forall|q: int|
                    j < q <= i ==> key_at(objects@, indices@, j as int, axis as int) <= key_at(
                        objects@,
                        indices@,
                        q,
                        axis as int,
                    ),
                go ==> j > start && key_at(objects@, indices@, j - 1, axis as int) > key_at(
                    objects@,
                    indices@,
                    j as int,
                    axis as int,
                ),
                !go ==> j == start || key_at(objects@, indices@, j - 1, axis as int) <= key_at(
                    objects@,
                    indices@,
                    j as int,
                    axis as int,
                ),
            decreases j + (if go { 1int } else { 0int }),
        {
            let ghost cur = indices@;
            let a = indices[j - 1];
            let b = indices[j];
            indices.set(j - 1, b);
            indices.set(j, a);
            proof {
                lemma_swap_step(objects@, orig, cur, indices@, start as int, count as int, j as int);
                assert forall|p: int| start <= p <= i implies key_at(
                    objects@,
                    indices@,
                    p,
                    axis as int,
                ) == key_at(
                    objects@,
                    cur,
                    if p == j - 1 {
                        j as int
                    } else if p == j {
                        j - 1
                    } else {
                        p
                    },
                    axis as int,
                ) by {}
            }
            j = j - 1;
            if j > start {
                go = key_of(objects, indices[j - 1], axis) > key_of(objects, indices[j], axis);
            } else {
                go = false;
            }
        }
        i = i + 1;
    }
}

/// A node of the hierarchy. A leaf names the boxes at `count` positions of
/// the index permutation from `start` on; an inner node owns two children.
#[derive(Debug)]
pub enum BVHNode {
    Leaf { bbox_min: Vec3, bbox_max: Vec3, start: usize, count: usize },
    Node { bbox_min: Vec3, bbox_max: Vec3, left: Box<BVHNode>, right: Box<BVHNode> },
}

/// The hierarchy over a set of boxes, with the order in which its leaves name them.
#[allow(clippy::upper_case_acronyms)]
#[derive(Debug)]
pub struct BVH {
    pub root: BVHNode,
    pub indices: Vec<usize>,
}

/// The bounding box that a node records.
pub open spec fn node_bbox(node: BVHNode) -> (Vec3, Vec3) {
    match node {
        BVHNode::Leaf { bbox_min, bbox_max, .. } => (bbox_min, bbox_max),
        BVHNode::Node { bbox_min, bbox_max, .. } => (bbox_min, bbox_max),
    }
}

/// The axis on which the range from `start` on is split: the longest axis of
/// the box around the centres it names.
pub open spec fn split_axis(objects: Seq<Cube>, indices: Seq<usize>, start: int, count: int) -> int {
    let cb = bbox_of(centers(objects, indices, start, count));
    longest_axis_spec(cb.0, cb.1)
}

/// No box named in the first `half` positions of the range lies beyond one
/// named in the rest of it, on the split axis.
pub open spec fn split_ordered(
    objects: Seq<Cube>,
    indices: Seq<usize>,
    start: int,
    count: int,
    half: int,
    axis: int,
) -> bool {
    forall|p: int, q: int|
        start <= p < start + half && start + half <= q < start + count ==> key_at(
            objects,
            indices,
            p,
            axis,
        ) <= key_at(objects, indices, q, axis)
}

/// `node` is the hierarchy over the positions of `indices` from `start` on,
/// `count` of them: a leaf of at most `LEAF_SIZE` boxes with their tight
/// box, or a split at the middle, ordered on the split axis, whose box is
/// the union of its children's. A half that is small enough to be a leaf
/// stands as the sort on the split axis left it, in ascending order.
pub open spec fn node_wf(
    node: BVHNode,
    objects: Seq<Cube>,
    indices: Seq<usize>,
    start: int,
    count: int,
) -> bool
    decreases node,
{
    match node {
        BVHNode::Leaf { bbox_min, bbox_max, start: s, count: c } => {
            &&& s == start
            &&& c == count
            &&& count <= LEAF_SIZE
            &&& (bbox_min, bbox_max) == bbox_of(extents(objects, indices, start, count))
        },
        BVHNode::Node { bbox_min, bbox_max, left, right } => {
            let half = count / 2;
            &&& count > LEAF_SIZE
            &&& node_wf(*left, objects, indices, start, half)
            &&& node_wf(*right, objects, indices, start + half, count - half)
            &&& (bbox_min, bbox_max) == box_union(node_bbox(*left), node_bbox(*right))
            &&& split_ordered(
                objects,
                indices,
                start,
                count,
                half,
                split_axis(objects, indices, start, count),
            )
            &&& half <= LEAF_SIZE ==> sorted_on(
                objects,
                indices,
                start,
                start + half,
                split_axis(objects, indices, start, count),
            )
            &&& count - half <= LEAF_SIZE ==> sorted_on(
                objects,
                indices,
                start + half,
                start + count,
                split_axis(objects, indices, start, count),
            )
        },
    }
}

/// The hierarchy is well formed over `objects`: its indices are a
/// permutation of the boxes' numbers and its root spans all of them.
pub open spec fn bvh_wf(bvh: BVH, objects: Seq<Cube>) -> bool {
    &&& is_permutation(bvh.indices@, objects.len() as int)
    &&& node_wf(bvh.root, objects, bvh.indices@, 0, objects.len() as int)
}

/// Two index sequences hold the same entries from `start` on, `count` of them.
pub open spec fn agree_on(a: Seq<usize>, b: Seq<usize>, start: int, count: int) -> bool {
    &&& 0 <= start
    &&& start + count <= a.len()
    &&& start + count <= b.len()
    &&& forall|i: int| start <= i < start + count ==> #[trigger] a[i] == b[i]
}

/// A node that is well formed over one index sequence is well formed over
/// any other that agrees with it on the node's range.
pub proof fn lemma_node_wf_frame(
    node: BVHNode,
    objects: Seq<Cube>,
    a: Seq<usize>,
    b: Seq<usize>,
    start: int,
    count: int,
)
    requires
        node_wf(node, objects, a, start, count),
        agree_on(a, b, start, count),
        0 <= count,
    ensures
        node_wf(node, objects, b, start, count),
    decreases node,
{
    assert(extents(objects, a, start, count) =~= extents(objects, b, start, count));
    assert(centers(objects, a, start, count) =~= centers(objects, b, start, count));
    match node {
        BVHNode::Leaf { .. } => {},
        BVHNode::Node { left, right, .. } => {
            let half = count / 2;
            lemma_node_wf_frame(*left, objects, a, b, start, half);
            lemma_node_wf_frame(*right, objects, a, b, start + half, count - half);
            let axis = split_axis(objects, a, start, count);
            assert forall|p: int, q: int|
                start <= p < start + half && start + half <= q < start + count implies key_at(
                objects,
                b,
                p,
                axis,
            ) <= key_at(objects, b, q, axis) by {
                assert(key_at(objects, a, p, axis) <= key_at(objects, a, q, axis));
                assert(a[p] == b[p]);
                assert(a[q] == b[q]);
            }
            assert forall|p: int, q: int| start <= p <= q < start + count implies (key_at(
                objects,
                a,
                p,
                axis,
            ) <= key_at(objects, a, q, axis)) == (key_at(objects, b, p, axis) <= key_at(
                objects,
                b,
                q,
                axis,
            )) by {
                assert(a[p] == b[p]);
                assert(a[q] == b[q]);
            }
        },
    }
}

/// A rearrangement of a part of a range is a rearrangement of the range.
proof fn lemma_rearranged_widen(
    a: Seq<usize>,
    b: Seq<usize>,
    s: int,
    c: int,
    start: int,
    count: int,
)
    requires
        rearranged(a, b, s, c),
        0 <= start <= s,
        s + c <= start + count,
        start + count <= a.len(),
    ensures
        rearranged(a, b, start, count),
{
    assert forall|i: int| start <= i < start + count implies in_range(
        a,
        start,
        count,
        #[trigger] b[i],
    ) by {
        if s <= i < s + c {
            assert(in_range(a, s, c, b[i]));
            let j = choose|j: int| s <= j < s + c && a[j] == b[i];
            assert(a[j] == b[i]);
        } else {
            assert(b[i] == a[i]);
        }
    }
}

/// Rearranging a range twice rearranges it.
proof fn lemma_rearranged_trans(
    a: Seq<usize>,
    b: Seq<usize>,
    c: Seq<usize>,
    start: int,
    count: int,
)
    requires
        rearranged(a, b, start, count),
        rearranged(b, c, start, count),
    ensures
        rearranged(a, c, start, count),
{
    assert forall|i: int| start <= i < start + count implies in_range(
        a,
        start,
        count,
        #[trigger] c[i],
    ) by {
        assert(in_range(b, start, count, c[i]));
        let j = choose|j: int| start <= j < start + count && b[j] == c[i];
        assert(in_range(a, start, count, b[j]));
    }
}

/// The union of the centres named by a range is the union over its two parts.
proof fn lemma_centers_split(objects: Seq<Cube>, s: Seq<usize>, start: int, c1: int, c2: int)
    requires
        0 <= c1,
        0 <= c2,
    ensures
        bbox_of(centers(objects, s, start, c1 + c2)) == box_union(
            bbox_of(centers(objects, s, start, c1)),
            bbox_of(centers(objects, s, start + c1, c2)),
        ),
{
    assert(centers(objects, s, start, c1 + c2) =~= centers(objects, s, start, c1) + centers(
        objects,
        s,
        start + c1,
        c2,
    ));
    lemma_bbox_concat(centers(objects, s, start, c1), centers(objects, s, start + c1, c2));
}

/// The union of the extents named by a range is the union over its two parts.
proof fn lemma_extents_split(objects: Seq<Cube>, s: Seq<usize>, start: int, c1: int, c2: int)
    requires
        0 <= c1,
        0 <= c2,
    ensures
        bbox_of(extents(objects, s, start, c1 + c2)) == box_union(
            bbox_of(extents(objects, s, start, c1)),
            bbox_of(extents(objects, s, start + c1, c2)),
        ),
{
    assert(extents(objects, s, start, c1 + c2) =~= extents(objects, s, start, c1) + extents(
        objects,
        s,
        start + c1,
        c2,
    ));
    lemma_bbox_concat(extents(objects, s, start, c1), extents(objects, s, start + c1, c2));
}

/// The two halves of a sorted range stay ordered against each other when
/// each is rearranged within itself.
proof fn lemma_split_survives(
    objects: Seq<Cube>,
    s1: Seq<usize>,
    s2: Seq<usize>,
    s3: Seq<usize>,
    start: int,
    count: int,
    half: int,
    axis: int,
)
    requires
        0 <= start,
        0 <= half <= count,
        start + count <= s1.len(),
        sorted_on(objects, s1, start, start + count, axis),
        rearranged(s1, s2, start, half),
        rearranged(s2, s3, start + half, count - half),
    ensures
        split_ordered(objects, s3, start, count, half, axis),
{
    assert forall|p: int, q: int|
        start <= p < start + half && start + half <= q < start + count implies key_at(
        objects,
        s3,
        p,
        axis,
    ) <= key_at(objects, s3, q, axis) by {
        assert(s3[p] == s2[p]);
        assert(in_range(s1, start, half, s2[p]));
        let pl = choose|j: int| start <= j < start + half && s1[j] == s2[p];
        assert(in_range(s2, start + half, count - half, s3[q]));
        let qr = choose|j: int| start + half <= j < start + half + (count - half) && s2[j] == s3[q];
        assert(s2[qr] == s1[qr]);
        assert(key_at(objects, s1, pl, axis) <= key_at(objects, s1, qr, axis));
    }
}

/// The step of the construction: a range that was sorted on its split axis
/// and whose halves were then built into well-formed children makes a
/// well-formed inner node.
proof fn lemma_build_node(
    objects: Seq<Cube>,
    s0: Seq<usize>,
    s1: Seq<usize>,
    s2: Seq<usize>,
    s3: Seq<usize>,
    start: int,
    count: int,
    axis: int,
    node: BVHNode,
)
    requires
        0 <= start,
        count > LEAF_SIZE,
        start + count <= s0.len(),
        axis == split_axis(objects, s0, start, count),
        rearranged(s0, s1, start, count),
        sorted_on(objects, s1, start, start + count, axis),
        bbox_of(centers(objects, s1, start, count)) == bbox_of(centers(objects, s0, start, count)),
        rearranged(s1, s2, start, count / 2),
        count / 2 <= LEAF_SIZE ==> s2 == s1,
        count - count / 2 <= LEAF_SIZE ==> s3 == s2,
        bbox_of(centers(objects, s2, start, count / 2)) == bbox_of(
            centers(objects, s1, start, count / 2),
        ),
        rearranged(s2, s3, start + count / 2, count - count / 2),
        bbox_of(centers(objects, s3, start + count / 2, count - count / 2)) == bbox_of(
            centers(objects, s2, start + count / 2, count - count / 2),
        ),
        node matches BVHNode::Node { bbox_min, bbox_max, left, right } && node_wf(
            *left,
            objects,
            s2,
            start,
            count / 2,
        ) && node_wf(*right, objects, s3, start + count / 2, count - count / 2) && (
            bbox_min,
            bbox_max,
        ) == box_union(node_bbox(*left), node_bbox(*right)),
    ensures
        rearranged(s0, s3, start, count),
        node_wf(node, objects, s3, start, count),
        bbox_of(centers(objects, s3, start, count)) == bbox_of(centers(objects, s0, start, count)),
{
    let hf = count / 2;
    lemma_rearranged_widen(s1, s2, start, hf, start, count);
    lemma_rearranged_widen(s2, s3, start + hf, count - hf, start, count);
    lemma_rearranged_trans(s0, s1, s2, start, count);
    lemma_rearranged_trans(s0, s2, s3, start, count);
    assert(agree_on(s2, s3, start, hf));
    if let BVHNode::Node { left, .. } = node {
        lemma_node_wf_frame(*left, objects, s2, s3, start, hf);
    }
    assert(centers(objects, s3, start, hf) =~= centers(objects, s2, start, hf));
    assert(centers(objects, s2, start + hf, count - hf) =~= centers(
        objects,
        s1,
        start + hf,
        count - hf,
    ));
    lemma_centers_split(objects, s3, start, hf, count - hf);
    lemma_centers_split(objects, s1, start, hf, count - hf);
    lemma_split_survives(objects, s1, s2, s3, start, count, hf, axis);
    if hf <= LEAF_SIZE {
        assert forall|p: int, q: int| start <= p <= q < start + hf implies key_at(
            objects,
            s3,
            p,
            axis,
        ) <= key_at(objects, s3, q, axis) by {
            assert(s3[p] == s1[p]);
            assert(s3[q] == s1[q]);
            assert(key_at(objects, s1, p, axis) <= key_at(objects, s1, q, axis));
        }
    }
    if count - hf <= LEAF_SIZE {
        assert forall|p: int, q: int| start + hf <= p <= q < start + count implies key_at(
            objects,
            s3,
            p,
            axis,
        ) <= key_at(objects, s3, q, axis) by {
            assert(s3[p] == s1[p]);
            assert(s3[q] == s1[q]);
            assert(key_at(objects, s1, p, axis) <= key_at(objects, s1, q, axis));
        }
    }
}

fn build_recursive(objects: &Vec<Cube>, indices: &mut Vec<usize>, start: usize, count: usize) -> (node:
    BVHNode)
    requires
        start + count <= old(indices).len(),
        is_permutation(old(indices)@, objects.len() as int),
    ensures
        is_permutation(final(indices)@, objects.len() as int),
        rearranged(old(indices)@, final(indices)@, start as int, count as int),
        node_wf(node, objects@, final(indices)@, start as int, count as int),
        bbox_of(centers(objects@, final(indices)@, start as int, count as int)) == bbox_of(
            centers(objects@, old(indices)@, start as int, count as int),
        ),
        count <= LEAF_SIZE ==> final(indices)@ == old(indices)@,
    decreases count,
{
    let ghost s0 = indices@;
    proof {
        lemma_rearranged_refl(s0, start as int, count as int);
    }
    let (bmin, bmax) = bbox_for_indices(objects, indices, start, count);
    if count <= LEAF_SIZE {
        return BVHNode::Leaf { bbox_min: bmin, bbox_max: bmax, start, count };
    }
    let (cmin, cmax) = centroid_bbox(objects, indices, start, count);
    let axis = longest_axis(&cmin, &cmax);
    sort_range(objects, indices, start, count, axis);
    let ghost s1 = indices@;
    let half = count / 2;
    let mid = start + half;
    let left = build_recursive(objects, indices, start, half);
    let ghost s2 = indices@;
    let right = build_recursive(objects, indices, mid, count - half);
    let ghost s3 = indices@;
    let (lmin, lmax) = match &left {
        BVHNode::Leaf { bbox_min, bbox_max, .. } => (*bbox_min, *bbox_max),
        BVHNode::Node { bbox_min, bbox_max, .. } => (*bbox_min, *bbox_max),
    };
    let (rmin, rmax) = match &right {
        BVHNode::Leaf { bbox_min, bbox_max, .. } => (*bbox_min, *bbox_max),
        BVHNode::Node { bbox_min, bbox_max, .. } => (*bbox_min, *bbox_max),
    };
    let (nbmin, nbmax) = union_bbox(&lmin, &lmax, &rmin, &rmax);
    let node = BVHNode::Node {
        bbox_min: nbmin,
        bbox_max: nbmax,
        left: Box::new(left),
        right: Box::new(right),
    };
    proof {
        lemma_build_node(
            objects@,
            s0,
            s1,
            s2,
            s3,
            start as int,
            count as int,
            axis as int,
            node,
        );
    }
    node
}

/// Builds the hierarchy over `objects`. The indices start in the order of
/// the boxes, and only a range that is split is sorted: up to `LEAF_SIZE`
/// boxes keep their order.
pub fn build_bvh(objects: &Vec<Cube>) -> (bvh: BVH)
    ensures
        bvh_wf(bvh, objects@),
        traversable(bvh.root, objects@, bvh.indices@),
        objects.len() <= LEAF_SIZE ==> forall|i: int|
            0 <= i < objects.len() ==> bvh.indices@[i] == i,
{
    let n = objects.len();
    let mut indices: Vec<usize> = Vec::new();
    let mut i: usize = 0;
    while i < n
        invariant
            i <= n,
            indices.len() == i,
            forall|k: int| 0 <= k < i ==> indices[k] == k,
        decreases n - i,
    {
        indices.push(i);
        i = i + 1;
    }
    proof {
        assert forall|k: usize| k < n implies #[trigger] indices@.contains(k) by {
            assert(indices@[k as int] == k);
        }
    }
    let root = build_recursive(objects, &mut indices, 0, n);
    let bvh = BVH { root, indices };
    proof {
        lemma_bvh_traversable(bvh, objects@);
    }
    bvh
}

/// The hook for another way of splitting a range. The builder sorts and
/// halves in place, so this leaves the indices as they are.
pub fn median_split(objects: &mut Vec<usize>, axis: usize)
    ensures
        final(objects)@ == old(objects)@,
{
}

/// The record a search starts from: a miss at the farthest distance.
pub open spec fn no_hit_yet() -> Intersect {
    Intersect { distance: FX_MAX, ..miss() }
}

/// The nearer of the best hit so far and a new record: the new one only if
/// it is a hit and strictly nearer.
pub open spec fn nearer(best: Intersect, tmp: Intersect) -> Intersect {
    if tmp.is_intersecting && tmp.distance < best.distance {
        tmp
    } else {
        best
    }
}

/// The best hit after testing, in order, the boxes that `indices` names
/// from `start` on, `count` of them, starting from `best`.
pub open spec fn scan(
    objects: Seq<Cube>,
    indices: Seq<usize>,
    start: int,
    count: int,
    o: Vec3,
    d: Vec3,
    best: Intersect,
) -> Intersect
    decreases count,
{
    if count <= 0 {
        best
    } else {
        nearer(
            scan(objects, indices, start, count - 1, o, d, best),
            cube_hit(objects[indices[start + count - 1] as int], o, d),
        )
    }
}

/// The best hit after testing every box in order, starting from `best`.
pub open spec fn scan_all(objects: Seq<Cube>, count: int, o: Vec3, d: Vec3, best: Intersect)
    -> Intersect
    decreases count,
{
    if count <= 0 {
        best
    } else {
        nearer(scan_all(objects, count - 1, o, d, best), cube_hit(objects[count - 1], o, d))
    }
}

/// The ray meets the node's box.
pub open spec fn enters(node: BVHNode, o: Vec3, d: Vec3) -> bool {
    aabb_interval(o, d, node_bbox(node).0, node_bbox(node).1).is_some()
}

/// The best hit after visiting `node`, starting from `best`: a node whose
/// box the ray misses is passed over; a leaf is scanned; of an inner node
/// both children are visited, the left one first.
pub open spec fn traverse_spec(
    node: BVHNode,
    objects: Seq<Cube>,
    indices: Seq<usize>,
    o: Vec3,
    d: Vec3,
    best: Intersect,
) -> Intersect
    decreases node,
{
    if !enters(node, o, d) {
        best
    } else {
        match node {
            BVHNode::Leaf { start, count, .. } => scan(
                objects,
                indices,
                start as int,
                count as int,
                o,
                d,
                best,
            ),
            BVHNode::Node { left, right, .. } => traverse_spec(
                *right,
                objects,
                indices,
                o,
                d,
                traverse_spec(*left, objects, indices, o, d, best),
            ),
        }
    }
}

/// Every leaf under `node` names boxes that exist.
pub open spec fn traversable(node: BVHNode, objects: Seq<Cube>, indices: Seq<usize>) -> bool
    decreases node,
{
    match node {
        BVHNode::Leaf { start, count, .. } => range_valid(
            objects,
            indices,
            start as int,
            count as int,
        ),
        BVHNode::Node { left, right, .. } => traversable(*left, objects, indices) && traversable(
            *right,
            objects,
            indices,
        ),
    }
}

/// A well-formed node over valid indices can be traversed.
pub proof fn lemma_wf_traversable(
    node: BVHNode,
    objects: Seq<Cube>,
    indices: Seq<usize>,
    start: int,
    count: int,
)
    requires
        node_wf(node, objects, indices, start, count),
        range_valid(objects, indices, start, count),
    ensures
        traversable(node, objects, indices),
    decreases node,
{
    match node {
        BVHNode::Leaf { .. } => {},
        BVHNode::Node { left, right, .. } => {
            let half = count / 2;
            lemma_wf_traversable(*left, objects, indices, start, half);
            lemma_wf_traversable(*right, objects, indices, start + half, count - half);
        },
    }
}

/// A well-formed hierarchy can be traversed.
pub proof fn lemma_bvh_traversable(bvh: BVH, objects: Seq<Cube>)
    requires
        bvh_wf(bvh, objects),
    ensures
        traversable(bvh.root, objects, bvh.indices@),
{
    lemma_wf_traversable(bvh.root, objects, bvh.indices@, 0, objects.len() as int);
}

fn traverse(
    node: &BVHNode,
    bvh: &BVH,
    objects: &Vec<Cube>,
    orig: &Vec3,
    dir: &Vec3,
    best: &mut Intersect,
)
    requires
        traversable(*node, objects@, bvh.indices@),
    ensures
        *final(best) == traverse_spec(*node, objects@, bvh.indices@, *orig, *dir, *old(best)),
    decreases node,
{
    match node {
        BVHNode::Leaf { bbox_min, bbox_max, start, count } => {
            if ray_intersect_aabb(orig, dir, bbox_min, bbox_max).is_some() {
                let ghost first = *best;
                let mut k: usize = 0;
                while k < *count
                    invariant
                        k <= *count,
                        *start + *count <= bvh.indices.len(),
                        range_valid(objects@, bvh.indices@, *start as int, *count as int),
                        *best == scan(
                            objects@,
                            bvh.indices@,
                            *start as int,
                            k as int,
                            *orig,
                            *dir,
                            first,
                        ),
                    decreases *count - k,
                {
                    let obj_idx = bvh.indices[*start + k];
                    let tmp = objects[obj_idx].ray_intersect(orig, dir);
                    if tmp.is_intersecting && tmp.distance < best.distance {
                        *best = tmp;
                    }
                    k = k + 1;
                }
            }
        },
        BVHNode::Node { bbox_min, bbox_max, left, right } => {
            if ray_intersect_aabb(orig, dir, bbox_min, bbox_max).is_some() {
                traverse(left, bvh, objects, orig, dir, best);
                traverse(right, bvh, objects, orig, dir, best);
            }
        },
    }
}

/// The nearest hit of the ray among the boxes, found through the hierarchy;
/// a miss, at the farthest distance, if there is none.
pub fn intersect_bvh(bvh: &BVH, objects: &Vec<Cube>, orig: &Vec3, dir: &Vec3) -> (r: Intersect)
    requires
        traversable(bvh.root, objects@, bvh.indices@),
    ensures
        r == traverse_spec(bvh.root, objects@, bvh.indices@, *orig, *dir, no_hit_yet()),
{
    let mut best = Intersect::empty();
    best.distance = FX_MAX;
    traverse(&bvh.root, bvh, objects, orig, dir, &mut best);
    best
}

/// The nearest hit of the ray among the boxes, found by testing each in turn.
pub fn intersect_linear(objects: &Vec<Cube>, orig: &Vec3, dir: &Vec3) -> (r: Intersect)
    ensures
        r == scan_all(objects@, objects.len() as int, *orig, *dir, no_hit_yet()),
{
    let mut best = Intersect::empty();
    best.distance = FX_MAX;
    let mut k: usize = 0;
    while k < objects.len()
        invariant
            k <= objects.len(),
            best == scan_all(objects@, k as int, *orig, *dir, no_hit_yet()),
        decreases objects.len() - k,
    {
        let tmp = objects[k].ray_intersect(orig, dir);
        if tmp.is_intersecting && tmp.distance < best.distance {
            best = tmp;
        }
        k = k + 1;
    }
    best
}

/// The boxes that the leaves under `node` name, leaf after leaf from the left.
pub open spec fn leaf_items(node: BVHNode, indices: Seq<usize>) -> Seq<usize>
    decreases node,
{
    match node {
        BVHNode::Leaf { start, count, .. } => indices.subrange(start as int, start + count),
        BVHNode::Node { left, right, .. } => leaf_items(*left, indices) + leaf_items(
            *right,
            indices,
        ),
    }
}

/// The leaves of a well-formed node name, in order, exactly the entries of
/// its range: their ranges lie side by side and leave no gap.
pub proof fn lemma_leaves_tile(
    node: BVHNode,
    objects: Seq<Cube>,
    indices: Seq<usize>,
    start: int,
    count: int,
)
    requires
        node_wf(node, objects, indices, start, count),
        0 <= start,
        0 <= count,
        start + count <= indices.len(),
    ensures
        leaf_items(node, indices) == indices.subrange(start, start + count),
    decreases node,
{
    match node {
        BVHNode::Leaf { .. } => {},
        BVHNode::Node { left, right, .. } => {
            let half = count / 2;
            lemma_leaves_tile(*left, objects, indices, start, half);
            lemma_leaves_tile(*right, objects, indices, start + half, count - half);
            assert(indices.subrange(start, start + half) + indices.subrange(
                start + half,
                start + count,
            ) =~= indices.subrange(start, start + count));
        },
    }
}

/// The leaves of a well-formed hierarchy over `n` boxes name each of the
/// numbers below `n` exactly once.
pub proof fn lemma_leaves_cover(bvh: BVH, objects: Seq<Cube>)
    requires
        bvh_wf(bvh, objects),
    ensures
        leaf_items(bvh.root, bvh.indices@) == bvh.indices@,
        is_permutation(leaf_items(bvh.root, bvh.indices@), objects.len() as int),
{
    lemma_leaves_tile(bvh.root, objects, bvh.indices@, 0, objects.len() as int);
    assert(bvh.indices@.subrange(0, objects.len() as int) =~= bvh.indices@);
}

/// The box of a well-formed node is the union of the extents of the boxes
/// in its range.
pub proof fn lemma_node_bbox_tight(
    node: BVHNode,
    objects: Seq<Cube>,
    indices: Seq<usize>,
    start: int,
    count: int,
)
    requires
        node_wf(node, objects, indices, start, count),
        0 <= count,
    ensures
        node_bbox(node) == bbox_of(extents(objects, indices, start, count)),
    decreases node,
{
    match node {
        BVHNode::Leaf { .. } => {},
        BVHNode::Node { left, right, .. } => {
            let half = count / 2;
            lemma_node_bbox_tight(*left, objects, indices, start, half);
            lemma_node_bbox_tight(*right, objects, indices, start + half, count - half);
            lemma_extents_split(objects, indices, start, half, count - half);
        },
    }
}

/// Of three equal extents the first axis is the longest.
pub proof fn lemma_longest_axis_tie(min: Vec3, max: Vec3)
    requires
        sub_spec(max.x as int, min.x as int) == sub_spec(max.y as int, min.y as int),
        sub_spec(max.y as int, min.y as int) == sub_spec(max.z as int, min.z as int),
    ensures
        longest_axis_spec(min, max) == 0,
{
}

} // verus!
