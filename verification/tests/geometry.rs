use voxel_tracer::bvh::{longest_axis, ray_intersect_aabb, union_bbox};
use voxel_tracer::color::Color;
use voxel_tracer::cube::Cube;
use voxel_tracer::fixed::{FX_MAX, FX_MIN, SCALE};
use voxel_tracer::ray_intersect::{FaceId, Intersect, Material, RayIntersect};
use voxel_tracer::vec3::Vec3;

fn unit_box(cx: i64, cy: i64, cz: i64) -> Cube {
    Cube::new(
        Vec3::new(cx, cy, cz),
        Vec3::new(500_000, 500_000, 500_000),
        SCALE,
        0,
        Material::new_color(Color::new(200, 100, 50, 255)),
        None,
    )
}

#[test]
fn new_box_has_its_bounding_radius() {
    let c = unit_box(0, 0, 0);
    assert_eq!(c.radius, 866_026);
    assert_eq!(c.rot_cos, SCALE);
    assert_eq!(c.rot_sin, 0);
}

#[test]
fn ray_straight_down_reports_top_face() {
    let c = unit_box(0, 0, 0);
    let hit = c.ray_intersect(&Vec3::new(0, 5 * SCALE, 0), &Vec3::new(0, -SCALE, 0));
    assert!(hit.is_intersecting);
    assert_eq!(hit.face, FaceId::Top);
    assert!(0 <= hit.uv.0 && hit.uv.0 <= SCALE);
    assert!(0 <= hit.uv.1 && hit.uv.1 <= SCALE);
    assert_eq!(hit.uv, (500_000, 500_000));
    assert_eq!(hit.distance, 4_500_000);
    assert_eq!(hit.point, Vec3::new(0, 500_000, 0));
    assert_eq!(hit.normal, Vec3::new(0, SCALE, 0));
}

#[test]
fn each_face_is_named_from_outside() {
    let c = unit_box(0, 0, 0);
    let far = 5 * SCALE;
    let cases = [
        (Vec3::new(far, 0, 0), Vec3::new(-SCALE, 0, 0), FaceId::Right),
        (Vec3::new(-far, 0, 0), Vec3::new(SCALE, 0, 0), FaceId::Left),
        (Vec3::new(0, far, 0), Vec3::new(0, -SCALE, 0), FaceId::Top),
        (Vec3::new(0, -far, 0), Vec3::new(0, SCALE, 0), FaceId::Bottom),
        (Vec3::new(0, 0, far), Vec3::new(0, 0, -SCALE), FaceId::Front),
        (Vec3::new(0, 0, -far), Vec3::new(0, 0, SCALE), FaceId::Back),
    ];
    for (o, d, face) in cases {
        let hit = c.ray_intersect(&o, &d);
        assert!(hit.is_intersecting);
        assert_eq!(hit.face, face);
        assert_eq!(hit.distance, 4_500_000);
        assert_eq!(hit.normal, d.neg());
    }
}

#[test]
fn face_uv_table() {
    let c = unit_box(0, 0, 0);
    let far = 5 * SCALE;
    // a point off centre: a quarter along the first free axis, three quarters along the second
    let hit = c.ray_intersect(&Vec3::new(far, 250_000, -250_000), &Vec3::new(-SCALE, 0, 0));
    assert_eq!(hit.face, FaceId::Right);
    assert_eq!(hit.uv, (750_000, 750_000));
    let hit = c.ray_intersect(&Vec3::new(-far, 250_000, -250_000), &Vec3::new(SCALE, 0, 0));
    assert_eq!(hit.face, FaceId::Left);
    assert_eq!(hit.uv, (250_000, 750_000));
    let hit = c.ray_intersect(&Vec3::new(-250_000, far, 250_000), &Vec3::new(0, -SCALE, 0));
    assert_eq!(hit.face, FaceId::Top);
    assert_eq!(hit.uv, (750_000, 750_000));
    let hit = c.ray_intersect(&Vec3::new(-250_000, -far, 250_000), &Vec3::new(0, SCALE, 0));
    assert_eq!(hit.face, FaceId::Bottom);
    assert_eq!(hit.uv, (250_000, 250_000));
    let hit = c.ray_intersect(&Vec3::new(-250_000, 250_000, far), &Vec3::new(0, 0, -SCALE));
    assert_eq!(hit.face, FaceId::Front);
    assert_eq!(hit.uv, (250_000, 750_000));
    let hit = c.ray_intersect(&Vec3::new(-250_000, 250_000, -far), &Vec3::new(0, 0, SCALE));
    assert_eq!(hit.face, FaceId::Back);
    assert_eq!(hit.uv, (750_000, 750_000));
}

#[test]
fn miss_is_the_empty_record() {
    let c = unit_box(0, 0, 0);
    let hit = c.ray_intersect(&Vec3::new(3 * SCALE, 5 * SCALE, 0), &Vec3::new(0, -SCALE, 0));
    assert!(!hit.is_intersecting);
    assert_eq!(hit.distance, 0);
    assert_eq!(hit.face, FaceId::Unknown);
    let e = Intersect::empty();
    assert!(!e.is_intersecting);
    assert_eq!(e.material.diffuse, Color::new(0, 0, 0, 255));
    assert_eq!(e.uv, (0, 0));
}

#[test]
fn box_behind_the_ray_is_missed() {
    let c = unit_box(0, 0, 0);
    let hit = c.ray_intersect(&Vec3::new(0, 5 * SCALE, 0), &Vec3::new(0, SCALE, 0));
    assert!(!hit.is_intersecting);
}

#[test]
fn ray_from_inside_hits_the_exit() {
    let c = unit_box(0, 0, 0);
    let hit = c.ray_intersect(&Vec3::new(0, 0, 0), &Vec3::new(0, 0, SCALE));
    assert!(hit.is_intersecting);
    assert_eq!(hit.distance, 500_000);
    assert_eq!(hit.face, FaceId::Front);
}

#[test]
fn parallel_ray_outside_the_slab_misses() {
    let c = unit_box(0, 0, 0);
    let hit = c.ray_intersect(&Vec3::new(600_000, 5 * SCALE, 0), &Vec3::new(0, -SCALE, 0));
    assert!(!hit.is_intersecting);
}

#[test]
fn top_material_shows_on_top_only() {
    let top = Material::new_color(Color::new(1, 2, 3, 255));
    let c = Cube::new(
        Vec3::new(0, 0, 0),
        Vec3::new(500_000, 500_000, 500_000),
        SCALE,
        0,
        Material::new_color(Color::new(9, 9, 9, 255)),
        Some(top),
    );
    let above = c.ray_intersect(&Vec3::new(0, 5 * SCALE, 0), &Vec3::new(0, -SCALE, 0));
    assert_eq!(above.material.diffuse, Color::new(1, 2, 3, 255));
    let side = c.ray_intersect(&Vec3::new(5 * SCALE, 0, 0), &Vec3::new(-SCALE, 0, 0));
    assert_eq!(side.material.diffuse, Color::new(9, 9, 9, 255));
    let below = c.ray_intersect(&Vec3::new(0, -5 * SCALE, 0), &Vec3::new(0, SCALE, 0));
    assert_eq!(below.material.diffuse, Color::new(9, 9, 9, 255));
}

#[test]
fn quarter_turn_swaps_the_horizontal_axes() {
    // cosine 0 and sine 1: the box's first axis points along the world's third, reversed
    let c = Cube::new(
        Vec3::new(0, 0, 0),
        Vec3::new(SCALE, 500_000, 250_000),
        0,
        SCALE,
        Material::new_color(Color::new(9, 9, 9, 255)),
        None,
    );
    let hit = c.ray_intersect(&Vec3::new(5 * SCALE, 0, 0), &Vec3::new(-SCALE, 0, 0));
    assert!(hit.is_intersecting);
    assert_eq!(hit.distance, 4_750_000);
    assert_eq!(hit.normal, Vec3::new(SCALE, 0, 0));
    assert_eq!(hit.face, FaceId::Front);
    assert_eq!(Cube::rotate_y(&Vec3::new(SCALE, 0, 0), 0, SCALE), Vec3::new(0, 0, -SCALE));
    assert_eq!(Cube::rotate_x(&Vec3::new(0, SCALE, 0), 0, SCALE), Vec3::new(0, 0, SCALE));
}

#[test]
fn trait_and_method_agree() {
    let c = unit_box(0, 0, 0);
    let o = Vec3::new(0, 5 * SCALE, 0);
    let d = Vec3::new(0, -SCALE, 0);
    let a = c.ray_intersect(&o, &d);
    let b = <Cube as RayIntersect>::ray_intersect(&c, &o, &d);
    assert_eq!(a.distance, b.distance);
    assert_eq!(a.face, b.face);
    assert_eq!(a.is_intersecting, b.is_intersecting);
}

#[test]
fn longest_axis_ties_go_to_the_earlier_axis() {
    let lo = Vec3::new(0, 0, 0);
    assert_eq!(longest_axis(&lo, &Vec3::new(SCALE, SCALE, SCALE)), 0);
    assert_eq!(longest_axis(&lo, &Vec3::new(SCALE, SCALE, 0)), 0);
    assert_eq!(longest_axis(&lo, &Vec3::new(SCALE, 0, SCALE)), 0);
    assert_eq!(longest_axis(&lo, &Vec3::new(0, SCALE, SCALE)), 1);
    assert_eq!(longest_axis(&lo, &Vec3::new(1, 2, 3)), 2);
    assert_eq!(longest_axis(&lo, &Vec3::new(1, 3, 2)), 1);
    assert_eq!(longest_axis(&lo, &Vec3::new(3, 2, 1)), 0);
}

#[test]
fn union_is_componentwise() {
    let (lo, hi) = union_bbox(
        &Vec3::new(0, -1, 5),
        &Vec3::new(2, 3, 6),
        &Vec3::new(-4, 0, 5),
        &Vec3::new(1, 9, 7),
    );
    assert_eq!(lo, Vec3::new(-4, -1, 5));
    assert_eq!(hi, Vec3::new(2, 9, 7));
}

#[test]
fn slab_test_gives_the_interval() {
    let lo = Vec3::new(-500_000, -500_000, -500_000);
    let hi = Vec3::new(500_000, 500_000, 500_000);
    let r = ray_intersect_aabb(&Vec3::new(0, 5 * SCALE, 0), &Vec3::new(0, -SCALE, 0), &lo, &hi);
    assert_eq!(r, Some((4_500_000, 5_500_000)));
    let r = ray_intersect_aabb(&Vec3::new(0, 5 * SCALE, 0), &Vec3::new(0, SCALE, 0), &lo, &hi);
    assert_eq!(r, Some((-5_500_000, -4_500_000)));
    let r = ray_intersect_aabb(
        &Vec3::new(5 * SCALE, 5 * SCALE, 0),
        &Vec3::new(-SCALE, -2 * SCALE, 0),
        &lo,
        &hi,
    );
    assert_eq!(r, None);
    // a ray along every slab, starting inside, is inside throughout
    let r = ray_intersect_aabb(&Vec3::new(0, 0, 0), &Vec3::new(0, 0, 0), &lo, &hi);
    assert_eq!(r, Some((FX_MIN, FX_MAX)));
    // starting beyond the box, both crossings lie at the same end
    let r = ray_intersect_aabb(&Vec3::new(9 * SCALE, 0, 0), &Vec3::new(0, 0, 0), &lo, &hi);
    assert_eq!(r, Some((FX_MIN, FX_MIN)));
    let r = ray_intersect_aabb(&Vec3::new(-9 * SCALE, 0, 0), &Vec3::new(0, 0, 0), &lo, &hi);
    assert_eq!(r, Some((FX_MAX, FX_MAX)));
}

#[test]
fn ray_along_a_slab_beside_the_box_meets_neither_box_nor_bounds() {
    let c = unit_box(0, 0, 0);
    let lo = Vec3::new(-500_000, -500_000, -500_000);
    let hi = Vec3::new(500_000, 500_000, 500_000);
    let d = Vec3::new(0, 0, -SCALE);
    for x in [600_000i64, -600_000, 500_001, -500_001] {
        let o = Vec3::new(x, 0, 5 * SCALE);
        assert!(!c.ray_intersect(&o, &d).is_intersecting);
        assert_eq!(ray_intersect_aabb(&o, &d, &lo, &hi), None);
    }
    let o = Vec3::new(0, 700_000, 5 * SCALE);
    assert!(!c.ray_intersect(&o, &d).is_intersecting);
    assert_eq!(ray_intersect_aabb(&o, &d, &lo, &hi), None);
}

#[test]
fn ray_in_a_face_plane_meets_box_and_bounds() {
    let c = unit_box(0, 0, 0);
    let lo = Vec3::new(-500_000, -500_000, -500_000);
    let hi = Vec3::new(500_000, 500_000, 500_000);
    let d = Vec3::new(0, 0, -SCALE);
    for x in [500_000i64, -500_000, 0] {
        let o = Vec3::new(x, 0, 5 * SCALE);
        let hit = c.ray_intersect(&o, &d);
        assert!(hit.is_intersecting);
        assert_eq!(hit.distance, 4_500_000);
        assert_eq!(ray_intersect_aabb(&o, &d, &lo, &hi), Some((4_500_000, 5_500_000)));
    }
}

#[test]
fn box_and_bounds_agree_on_steep_rays_ahead() {
    // for rays of unit length that start outside the bounding sphere, a hit
    // on the box and an interval ahead on its bounds go together
    let c = unit_box(SCALE, 2 * SCALE, -3 * SCALE);
    let lo = c.center.sub(&c.half_size);
    let hi = c.center.add(&c.half_size);
    let mut seed: u64 = 99;
    let mut both = 0;
    for k in 0..3000 {
        let mut next = |span: i64| {
            seed = seed.wrapping_mul(6364136223846793005).wrapping_add(1442695040888963407);
            ((seed >> 33) % (2 * span as u64 + 1)) as i64 - span
        };
        let o = Vec3::new(next(6 * SCALE), next(6 * SCALE), next(6 * SCALE));
        let d = if k % 3 == 0 {
            // along an axis, often beside the box
            Vec3::new(0, 0, -SCALE)
        } else {
            Vec3::new(next(SCALE), next(SCALE), next(SCALE)).normalize()
        };
        let hit = c.ray_intersect(&o, &d).is_intersecting;
        let ahead = match ray_intersect_aabb(&o, &d, &lo, &hi) {
            Some((tmin, tmax)) => tmin > 100 || tmax > 100,
            None => false,
        };
        if hit {
            assert!(ahead);
            both += 1;
        }
        if ahead && d.length() > 0 {
            assert!(hit);
        }
    }
    assert!(both > 0);
}

#[test]
fn box_hit_means_bounds_hit() {
    let c = unit_box(SCALE, 2 * SCALE, -3 * SCALE);
    let lo = c.center.sub(&c.half_size);
    let hi = c.center.add(&c.half_size);
    let mut seed: u64 = 12345;
    let mut hits = 0;
    for _ in 0..2000 {
        let mut next = || {
            seed = seed.wrapping_mul(6364136223846793005).wrapping_add(1442695040888963407);
            ((seed >> 33) % 12_000_001) as i64 - 6_000_000
        };
        let o = Vec3::new(next(), next(), next());
        let d = Vec3::new(next() / 6, next() / 6, next() / 6);
        let hit = c.ray_intersect(&o, &d);
        if hit.is_intersecting {
            hits += 1;
            assert!(ray_intersect_aabb(&o, &d, &lo, &hi).is_some());
        }
    }
    assert!(hits > 0);
}
