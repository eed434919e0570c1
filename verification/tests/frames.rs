use voxel_tracer::bvh::build_bvh;
use voxel_tracer::color::Color;
use voxel_tracer::cube::{make_small_cube, make_small_droplet, Cube};
use voxel_tracer::fixed::SCALE;
use voxel_tracer::framebuffer::Framebuffer;
use voxel_tracer::materials::{material_stone, material_water};
use voxel_tracer::shading::{cast_ray, trace_rays};
use voxel_tracer::vec3::Vec3;

#[test]
fn blocks_fill_the_buffer() {
    let mut fb = Framebuffer::new(4, 4, Color::new(0, 0, 0, 255));
    let colors = vec![
        Color::new(1, 0, 0, 255),
        Color::new(2, 0, 0, 255),
        Color::new(3, 0, 0, 255),
        Color::new(4, 0, 0, 255),
    ];
    fb.draw_blocks(&colors, 2, 2, 2);
    let reds: Vec<u8> = fb.image().iter().map(|c| c.r).collect();
    assert_eq!(reds, vec![1, 1, 2, 2, 1, 1, 2, 2, 3, 3, 4, 4, 3, 3, 4, 4]);
    // the last colour stays the pen
    fb.clear(Color::new(0, 0, 0, 255));
    fb.set_pixel(0, 0);
    assert_eq!(fb.pixel(0, 0), Color::new(4, 0, 0, 255));
}

#[test]
fn blocks_are_cut_at_the_edges_and_leave_the_rest() {
    let mut fb = Framebuffer::new(5, 3, Color::new(9, 9, 9, 255));
    let colors = vec![Color::new(1, 0, 0, 255), Color::new(2, 0, 0, 255)];
    // two blocks of side 2 in a row: columns 0 to 3 of rows 0 and 1
    fb.draw_blocks(&colors, 2, 1, 2);
    let reds: Vec<u8> = fb.image().iter().map(|c| c.r).collect();
    assert_eq!(reds, vec![1, 1, 2, 2, 9, 1, 1, 2, 2, 9, 9, 9, 9, 9, 9]);
    // blocks larger than the buffer are cut off
    let mut small = Framebuffer::new(3, 1, Color::new(9, 9, 9, 255));
    small.draw_blocks(&colors, 2, 1, 2);
    let reds: Vec<u8> = small.image().iter().map(|c| c.r).collect();
    assert_eq!(reds, vec![1, 1, 2]);
    // an empty grid draws nothing and keeps the pen
    small.set_current_color(Color::new(7, 7, 7, 7));
    small.draw_blocks(&Vec::new(), 0, 0, 2);
    assert_eq!(small.pixel(1, 0), Color::new(1, 0, 0, 255));
    small.set_pixel(2, 0);
    assert_eq!(small.pixel(2, 0), Color::new(7, 7, 7, 7));
}

#[test]
fn only_the_grid_is_drawn_from_a_longer_list() {
    let mut fb = Framebuffer::new(2, 1, Color::new(9, 9, 9, 255));
    let colors = vec![Color::new(1, 0, 0, 255), Color::new(2, 0, 0, 255), Color::new(3, 0, 0, 255)];
    fb.draw_blocks(&colors, 2, 1, 1);
    let reds: Vec<u8> = fb.image().iter().map(|c| c.r).collect();
    assert_eq!(reds, vec![1, 2]);
    fb.clear(Color::new(0, 0, 0, 255));
    fb.set_pixel(0, 0);
    assert_eq!(fb.pixel(0, 0), Color::new(2, 0, 0, 255));
}

#[test]
fn rays_are_traced_in_order() {
    let objects = vec![Cube::new(
        Vec3::new(0, 0, 0),
        Vec3::new(500_000, 500_000, 500_000),
        SCALE,
        0,
        material_stone(),
        None,
    )];
    let bvh = build_bvh(&objects);
    let o = Vec3::new(0, 0, 5 * SCALE);
    let dirs = vec![Vec3::new(0, 0, -SCALE), Vec3::new(0, SCALE, 0), Vec3::new(0, -SCALE, 0)];
    let colors = trace_rays(&o, &dirs, &objects, Some(&bvh), None);
    assert_eq!(colors.len(), 3);
    for (c, d) in colors.iter().zip(dirs.iter()) {
        assert_eq!(*c, cast_ray(&o, d, &objects, Some(&bvh), None));
    }
    assert_eq!(colors[1], Color::new(135, 206, 235, 255));
    assert_eq!(colors[2], Color::new(40, 70, 120, 255));
    assert_ne!(colors[0], colors[1]);
    assert!(trace_rays(&o, &Vec::new(), &objects, None, None).is_empty());
}

#[test]
fn small_boxes_of_the_scene() {
    let c = make_small_cube(3, 5, 4_500_000, material_water());
    assert_eq!(c.center, Vec3::new(2 * SCALE, 4_500_000, 4 * SCALE));
    assert_eq!(c.half_size, Vec3::new(300_000, 300_000, 300_000));
    assert_eq!((c.rot_cos, c.rot_sin), (SCALE, 0));
    assert_eq!(c.radius, 519_616);
    assert!(c.top_material.is_none());
    assert!(c.material.liquid);
    let d = make_small_droplet(3, 5, 4_050_000, material_water());
    assert_eq!(d.center, Vec3::new(2_120_000, 4_050_000, 3_920_000));
    assert_eq!(d.half_size, Vec3::new(180_000, 180_000, 180_000));
    assert_eq!(d.radius, 311_770);
    let far = make_small_cube(i32::MIN, i32::MAX, 0, material_water());
    assert_eq!(far.center.x, (i32::MIN as i64 - 1) * SCALE);
    assert_eq!(far.center.z, (i32::MAX as i64 - 1) * SCALE);
    let copy = c.clone();
    assert_eq!(copy.center, c.center);
    assert_eq!(copy.radius, c.radius);
    assert_eq!(copy.material.diffuse, c.material.diffuse);
}
