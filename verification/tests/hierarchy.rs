use voxel_tracer::bvh::{
    bbox_for_indices, build_bvh, centroid_bbox, intersect_bvh, intersect_linear, median_split,
    BVHNode, BVH,
};
use voxel_tracer::color::Color;
use voxel_tracer::cube::Cube;
use voxel_tracer::fixed::{FX_MAX, FX_MIN, SCALE};
use voxel_tracer::ray_intersect::Material;
use voxel_tracer::vec3::Vec3;

struct Lcg(u64);

impl Lcg {
    fn next(&mut self, span: i64) -> i64 {
        self.0 = self.0.wrapping_mul(6364136223846793005).wrapping_add(1442695040888963407);
        ((self.0 >> 33) % (2 * span as u64 + 1)) as i64 - span
    }
}

fn random_boxes(n: usize, seed: u64) -> Vec<Cube> {
    let mut rng = Lcg(seed);
    let mut v = Vec::new();
    for _ in 0..n {
        let center = Vec3::new(rng.next(20 * SCALE), rng.next(20 * SCALE), rng.next(20 * SCALE));
        let half = Vec3::new(
            100_000 + rng.next(SCALE).abs(),
            100_000 + rng.next(SCALE).abs(),
            100_000 + rng.next(SCALE).abs(),
        );
        v.push(Cube::new(center, half, SCALE, 0, Material::new_color(Color::new(1, 2, 3, 255)), None));
    }
    v
}

fn leaf_ranges(node: &BVHNode, out: &mut Vec<(usize, usize)>) {
    match node {
        BVHNode::Leaf { start, count, .. } => out.push((*start, *count)),
        BVHNode::Node { left, right, .. } => {
            leaf_ranges(left, out);
            leaf_ranges(right, out);
        }
    }
}

fn check_boxes(node: &BVHNode, objects: &Vec<Cube>, bvh: &BVH, start: usize, count: usize) {
    let tight = bbox_for_indices(objects, &bvh.indices, start, count);
    match node {
        BVHNode::Leaf { bbox_min, bbox_max, start: s, count: c } => {
            assert_eq!((*s, *c), (start, count));
            assert!(count <= 8);
            assert_eq!((*bbox_min, *bbox_max), tight);
        }
        BVHNode::Node { bbox_min, bbox_max, left, right } => {
            assert!(count > 8);
            assert_eq!((*bbox_min, *bbox_max), tight);
            check_boxes(left, objects, bvh, start, count / 2);
            check_boxes(right, objects, bvh, start + count / 2, count - count / 2);
        }
    }
}

#[test]
fn leaf_ranges_cover_every_box_once() {
    for n in [0usize, 1, 8, 9, 17, 100, 257] {
        let objects = random_boxes(n, 7 + n as u64);
        let bvh = build_bvh(&objects);
        assert_eq!(bvh.indices.len(), n);
        let mut ranges = Vec::new();
        leaf_ranges(&bvh.root, &mut ranges);
        let mut next = 0;
        let mut seen = vec![false; n];
        for (start, count) in ranges {
            assert_eq!(start, next);
            assert!(count <= 8);
            for i in start..start + count {
                let k = bvh.indices[i];
                assert!(k < n);
                assert!(!seen[k]);
                seen[k] = true;
            }
            next = start + count;
        }
        assert_eq!(next, n);
        assert!(seen.iter().all(|s| *s));
    }
}

#[test]
fn node_boxes_are_tight() {
    let objects = random_boxes(100, 99);
    let bvh = build_bvh(&objects);
    check_boxes(&bvh.root, &objects, &bvh, 0, 100);
}

#[test]
fn small_scene_is_one_leaf() {
    let objects = random_boxes(8, 3);
    let bvh = build_bvh(&objects);
    match &bvh.root {
        BVHNode::Leaf { start, count, .. } => assert_eq!((*start, *count), (0, 8)),
        BVHNode::Node { .. } => panic!("eight boxes fit a leaf"),
    }
    assert_eq!(bvh.indices, vec![0, 1, 2, 3, 4, 5, 6, 7]);
}

#[test]
fn split_orders_the_halves_on_the_longest_axis() {
    // ten boxes in a row along the third axis, given in reverse
    let mut objects = Vec::new();
    for i in 0..10 {
        objects.push(Cube::new(
            Vec3::new(0, 0, (9 - i) * 2 * SCALE),
            Vec3::new(500_000, 500_000, 500_000),
            SCALE,
            0,
            Material::new_color(Color::new(1, 2, 3, 255)),
            None,
        ));
    }
    let bvh = build_bvh(&objects);
    assert_eq!(bvh.indices, vec![9, 8, 7, 6, 5, 4, 3, 2, 1, 0]);
    match &bvh.root {
        BVHNode::Node { bbox_min, bbox_max, left, right } => {
            assert_eq!(*bbox_min, Vec3::new(-500_000, -500_000, -500_000));
            assert_eq!(*bbox_max, Vec3::new(500_000, 500_000, 18_500_000));
            match (&**left, &**right) {
                (
                    BVHNode::Leaf { start: ls, count: lc, .. },
                    BVHNode::Leaf { start: rs, count: rc, .. },
                ) => {
                    assert_eq!((*ls, *lc, *rs, *rc), (0, 5, 5, 5));
                }
                _ => panic!("ten boxes split into two leaves"),
            }
        }
        BVHNode::Leaf { .. } => panic!("ten boxes do not fit a leaf"),
    }
}

fn row(centers: &[(i64, i64, i64)]) -> Vec<Cube> {
    centers
        .iter()
        .map(|(x, y, z)| {
            Cube::new(
                Vec3::new(x * SCALE, y * SCALE, z * SCALE),
                Vec3::new(500_000, 500_000, 500_000),
                SCALE,
                0,
                Material::new_color(Color::new(1, 2, 3, 255)),
                None,
            )
        })
        .collect()
}

fn leaf(node: &BVHNode) -> (Vec3, Vec3, usize, usize) {
    match node {
        BVHNode::Leaf { bbox_min, bbox_max, start, count } => (*bbox_min, *bbox_max, *start, *count),
        BVHNode::Node { .. } => panic!("a leaf stands here"),
    }
}

#[test]
fn nine_boxes_in_reverse_are_sorted_into_two_leaves() {
    let centers: Vec<(i64, i64, i64)> = (0..9).map(|i| (8 - i, 0, 0)).collect();
    let objects = row(&centers);
    let bvh = build_bvh(&objects);
    assert_eq!(bvh.indices, vec![8, 7, 6, 5, 4, 3, 2, 1, 0]);
    match &bvh.root {
        BVHNode::Node { bbox_min, bbox_max, left, right } => {
            assert_eq!(*bbox_min, Vec3::new(-500_000, -500_000, -500_000));
            assert_eq!(*bbox_max, Vec3::new(8_500_000, 500_000, 500_000));
            assert_eq!(
                leaf(left),
                (Vec3::new(-500_000, -500_000, -500_000), Vec3::new(3_500_000, 500_000, 500_000), 0, 4)
            );
            assert_eq!(
                leaf(right),
                (Vec3::new(3_500_000, -500_000, -500_000), Vec3::new(8_500_000, 500_000, 500_000), 4, 5)
            );
        }
        BVHNode::Leaf { .. } => panic!("nine boxes do not fit a leaf"),
    }
}

#[test]
fn first_axis_wins_a_tie_of_three_extents() {
    let centers: Vec<(i64, i64, i64)> = (0..9).map(|i| (i, i, 8 - i)).collect();
    let objects = row(&centers);
    let bvh = build_bvh(&objects);
    assert_eq!(bvh.indices, vec![0, 1, 2, 3, 4, 5, 6, 7, 8]);
    match &bvh.root {
        BVHNode::Node { left, right, .. } => {
            let (_, _, ls, lc) = leaf(left);
            let (_, _, rs, rc) = leaf(right);
            assert_eq!((ls, lc, rs, rc), (0, 4, 4, 5));
        }
        BVHNode::Leaf { .. } => panic!("nine boxes do not fit a leaf"),
    }
}

#[test]
fn up_to_eight_boxes_keep_their_order() {
    let objects = row(&[(5, 0, 0), (1, 0, 0), (3, 0, 0)]);
    let bvh = build_bvh(&objects);
    assert_eq!(bvh.indices, vec![0, 1, 2]);
    assert_eq!(
        leaf(&bvh.root),
        (Vec3::new(500_000, -500_000, -500_000), Vec3::new(5_500_000, 500_000, 500_000), 0, 3)
    );
    let eight: Vec<(i64, i64, i64)> = (0..8).map(|i| (7 - i, 0, 0)).collect();
    assert_eq!(build_bvh(&row(&eight)).indices, vec![0, 1, 2, 3, 4, 5, 6, 7]);
}

#[test]
fn leaves_under_a_split_are_sorted_on_its_axis() {
    let objects = random_boxes(40, 5);
    let bvh = build_bvh(&objects);
    fn walk(node: &BVHNode, objects: &Vec<Cube>, bvh: &BVH, start: usize, count: usize) {
        if let BVHNode::Node { left, right, .. } = node {
            let (lo, hi) = centroid_bbox(objects, &bvh.indices, start, count);
            let axis = voxel_tracer::bvh::longest_axis(&lo, &hi);
            let key = |i: usize| {
                let c = objects[bvh.indices[i]].center;
                [c.x, c.y, c.z][axis]
            };
            let half = count / 2;
            for (s, n) in [(start, half), (start + half, count - half)] {
                if n <= 8 {
                    for i in s + 1..s + n {
                        assert!(key(i - 1) <= key(i));
                    }
                }
            }
            assert!(key(start + half - 1) <= key(start + half));
            walk(left, objects, bvh, start, half);
            walk(right, objects, bvh, start + half, count - half);
        }
    }
    walk(&bvh.root, &objects, &bvh, 0, 40);
}

#[test]
fn turned_box_beside_an_axis_ray_is_passed_over() {
    // a long box turned a quarter: it reaches along the first axis, beyond
    // the bounds that its half size gives along it
    let mut objects = Vec::new();
    objects.push(Cube::new(
        Vec3::new(0, 0, 0),
        Vec3::new(250_000, 500_000, 2 * SCALE),
        0,
        SCALE,
        Material::new_color(Color::new(1, 2, 3, 255)),
        None,
    ));
    let bvh = build_bvh(&objects);
    let o = Vec3::new(SCALE, 0, 5 * SCALE);
    let d = Vec3::new(0, 0, -SCALE);
    assert!(objects[0].ray_intersect(&o, &d).is_intersecting);
    assert!(!intersect_bvh(&bvh, &objects, &o, &d).is_intersecting);
}

#[test]
fn empty_range_has_the_empty_box() {
    let objects = random_boxes(3, 1);
    let indices = vec![0, 1, 2];
    let (lo, hi) = bbox_for_indices(&objects, &indices, 1, 0);
    assert_eq!(lo, Vec3::new(FX_MAX, FX_MAX, FX_MAX));
    assert_eq!(hi, Vec3::new(FX_MIN, FX_MIN, FX_MIN));
    let (clo, chi) = centroid_bbox(&objects, &indices, 2, 1);
    assert_eq!(clo, objects[2].center);
    assert_eq!(chi, objects[2].center);
}

#[test]
fn hierarchy_finds_the_same_nearest_hit_as_the_scan() {
    let objects = random_boxes(200, 2024);
    let bvh = build_bvh(&objects);
    let mut rng = Lcg(77);
    let mut hits = 0;
    for _ in 0..500 {
        let o = Vec3::new(rng.next(30 * SCALE), rng.next(30 * SCALE), rng.next(30 * SCALE));
        let d = Vec3::new(rng.next(SCALE), rng.next(SCALE), rng.next(SCALE)).normalize();
        let a = intersect_bvh(&bvh, &objects, &o, &d);
        let b = intersect_linear(&objects, &o, &d);
        assert_eq!(a.is_intersecting, b.is_intersecting);
        if a.is_intersecting {
            hits += 1;
            assert!((a.distance - b.distance).abs() <= 100);
        } else {
            assert_eq!(a.distance, FX_MAX);
        }
    }
    assert!(hits > 20);
}

#[test]
fn nearest_of_two_boxes_in_line() {
    let mut objects = Vec::new();
    for z in [-4i64, -9] {
        objects.push(Cube::new(
            Vec3::new(0, 0, z * SCALE),
            Vec3::new(500_000, 500_000, 500_000),
            SCALE,
            0,
            Material::new_color(Color::new((-z) as u8, 0, 0, 255)),
            None,
        ));
    }
    let bvh = build_bvh(&objects);
    let o = Vec3::new(0, 0, 0);
    let d = Vec3::new(0, 0, -SCALE);
    let hit = intersect_bvh(&bvh, &objects, &o, &d);
    assert!(hit.is_intersecting);
    assert_eq!(hit.distance, 3_500_000);
    assert_eq!(hit.material.diffuse.r, 4);
    let hit = intersect_linear(&objects, &o, &d);
    assert_eq!(hit.distance, 3_500_000);
}

#[test]
fn median_split_leaves_the_indices() {
    let mut v = vec![3usize, 1, 2];
    median_split(&mut v, 1);
    assert_eq!(v, vec![3, 1, 2]);
}
