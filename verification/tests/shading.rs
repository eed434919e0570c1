use voxel_tracer::bvh::build_bvh;
use voxel_tracer::color::Color;
use voxel_tracer::cube::Cube;
use voxel_tracer::fixed::SCALE;
use voxel_tracer::materials::{
    material_brick, material_dark_wood, material_dirt, material_glass, material_gold,
    material_grass, material_light_gray, material_path, material_pillar, material_pumpkin,
    material_stone, material_water, material_wood,
};
use voxel_tracer::ray_intersect::{FaceId, Material};
use voxel_tracer::shading::{
    cast_ray, cast_ray_rec, nearest_hit, sample_material, sample_sky, sends_reflection, shade,
};
use voxel_tracer::texture::TextureManager;
use voxel_tracer::tone::{fx_decode, fx_encode, fx_root5, srgb_to_linear, tone_map};
use voxel_tracer::vec3::{reflect, Vec3};

fn unit_box(material: Material) -> Vec<Cube> {
    vec![Cube::new(
        Vec3::new(0, 0, 0),
        Vec3::new(500_000, 500_000, 500_000),
        SCALE,
        0,
        material,
        None,
    )]
}

#[test]
fn sky_straight_up_is_the_top_colour() {
    let none: Vec<Cube> = Vec::new();
    let c = cast_ray(&Vec3::new(0, 0, 0), &Vec3::new(0, SCALE, 0), &none, None, None);
    assert_eq!(c, Color::new(135, 206, 235, 255));
    assert_eq!(sample_sky(&Vec3::new(0, SCALE, 0)), Color::new(135, 206, 235, 255));
}

#[test]
fn sky_straight_down_is_the_bottom_colour() {
    let none: Vec<Cube> = Vec::new();
    let c = cast_ray(&Vec3::new(0, 0, 0), &Vec3::new(0, -SCALE, 0), &none, None, None);
    assert_eq!(c, Color::new(40, 70, 120, 255));
    let bvh = build_bvh(&none);
    let c = cast_ray(&Vec3::new(0, 0, 0), &Vec3::new(0, -SCALE, 0), &none, Some(&bvh), None);
    assert_eq!(c, Color::new(40, 70, 120, 255));
}

#[test]
fn sky_at_the_horizon_is_halfway() {
    assert_eq!(sample_sky(&Vec3::new(SCALE, 0, 0)), Color::new(87, 138, 177, 255));
    // beyond unit length the height is limited
    assert_eq!(sample_sky(&Vec3::new(0, 5 * SCALE, 0)), Color::new(135, 206, 235, 255));
    assert_eq!(sample_sky(&Vec3::new(0, -5 * SCALE, 0)), Color::new(40, 70, 120, 255));
}

#[test]
fn gamma_decode_values() {
    assert_eq!(fx_root5(SCALE), SCALE);
    assert_eq!(fx_root5(0), 0);
    assert_eq!(fx_root5(500_000), 870_550);
    assert_eq!(fx_decode(500_000), 217_637);
    assert_eq!(fx_decode(SCALE), SCALE);
    assert_eq!(fx_decode(2 * SCALE), SCALE);
    assert_eq!(fx_decode(-3), 0);
    assert_eq!(srgb_to_linear(Color::new(200, 100, 50, 255)), Vec3::new(585_970, 127_528, 27_754));
    assert_eq!(srgb_to_linear(Color::new(0, 128, 255, 0)), Vec3::new(0, 219_518, SCALE));
}

#[test]
fn gamma_encode_inverts_decode_on_bytes() {
    for b in 0..=255u8 {
        let linear = srgb_to_linear(Color::new(b, b, b, 255));
        assert_eq!(fx_encode(linear.x), b);
    }
}

#[test]
fn tone_mapped_channels_stay_in_range() {
    assert_eq!(tone_map(&Vec3::new(0, SCALE, 500_000)), Color::new(0, 186, 154, 255));
    assert_eq!(tone_map(&Vec3::new(10 * SCALE, -5, i64::MAX)), Color::new(244, 0, 255, 255));
    let mut x: i64 = 1;
    while x < i64::MAX / 3 {
        let c = tone_map(&Vec3::new(x, x / 2, x / 3));
        assert!(c.r >= c.g && c.g >= c.b);
        assert_eq!(c.a, 255);
        x *= 3;
    }
}

#[test]
fn matte_box_head_on_casts_no_further_ray() {
    let material = Material::new_color(Color::new(200, 100, 50, 255));
    assert!(!sends_reflection(&material, 0));
    let objects = unit_box(material);
    let o = Vec3::new(0, 0, 5 * SCALE);
    let d = Vec3::new(0, 0, -SCALE);
    let c = cast_ray(&o, &d, &objects, None, None);
    assert_eq!(c, Color::new(136, 75, 38, 255));
    let hit = nearest_hit(&objects, None, &o, &d);
    assert_eq!(hit.face, FaceId::Front);
    assert_eq!(c, shade(&objects, None, &hit, &d, None));
    // the depth plays no part where nothing reflects
    for depth in 0..5 {
        assert_eq!(cast_ray_rec(&o, &d, &objects, None, depth, None), c);
    }
    let bvh = build_bvh(&objects);
    assert_eq!(cast_ray(&o, &d, &objects, Some(&bvh), None), c);
}

#[test]
fn lit_from_above() {
    let objects = unit_box(Material::new_color(Color::new(200, 100, 50, 255)));
    let c = cast_ray(&Vec3::new(0, 5 * SCALE, 0), &Vec3::new(0, -SCALE, 0), &objects, None, None);
    assert_eq!(c, Color::new(183, 113, 60, 255));
}

#[test]
fn mirror_at_depth_two_reflects_once_more() {
    let mut material = Material::new_color(Color::new(200, 100, 50, 255));
    material.reflectivity = SCALE;
    assert!(sends_reflection(&material, 0));
    assert!(sends_reflection(&material, 2));
    assert!(!sends_reflection(&material, 3));
    assert!(!sends_reflection(&material, 4));
    let objects = unit_box(material);
    let o = Vec3::new(0, 0, 5 * SCALE);
    let d = Vec3::new(0, 0, -SCALE);
    let hit = nearest_hit(&objects, None, &o, &d);
    let out = reflect(&d, &hit.normal).normalize();
    let from = hit.point.add(&hit.normal.scale(1_000));
    let beyond = cast_ray_rec(&from, &out, &objects, None, 3, None);
    assert_eq!(
        cast_ray_rec(&o, &d, &objects, None, 2, None),
        shade(&objects, None, &hit, &d, Some(beyond))
    );
    // from the limit on no reflection is followed
    assert_eq!(cast_ray_rec(&o, &d, &objects, None, 3, None), shade(&objects, None, &hit, &d, None));
    assert_eq!(
        cast_ray_rec(&o, &d, &objects, None, 4, None),
        cast_ray_rec(&o, &d, &objects, None, 3, None)
    );
    // a full mirror facing the sky shows the sky's reflection
    let sky = sample_sky(&out);
    assert_eq!(beyond, sky);
}

#[test]
fn reflection_needs_more_than_the_least_amount() {
    let mut material = Material::new_color(Color::new(1, 1, 1, 255));
    material.reflectivity = 10_000;
    assert!(!sends_reflection(&material, 0));
    material.reflectivity = 10_001;
    assert!(sends_reflection(&material, 0));
    material.unlit = true;
    assert!(!sends_reflection(&material, 0));
}

#[test]
fn unlit_material_shows_its_base_colour() {
    let objects = unit_box(material_dark_wood());
    let c = cast_ray(&Vec3::new(0, 0, 5 * SCALE), &Vec3::new(0, 0, -SCALE), &objects, None, None);
    assert_eq!(c, Color::new(0x7F, 0x66, 0x45, 255));
}

#[test]
fn transparent_box_shows_what_lies_behind() {
    // a small pane of glass: too small to be seen through a surface itself
    let mut objects = vec![Cube::new(
        Vec3::new(0, 0, 0),
        Vec3::new(300_000, 300_000, 300_000),
        SCALE,
        0,
        material_glass(),
        None,
    )];
    let o = Vec3::new(0, 0, 5 * SCALE);
    let d = Vec3::new(0, 0, -SCALE);
    let alone = cast_ray(&o, &d, &objects, None, None);
    objects.push(Cube::new(
        Vec3::new(0, 0, -3 * SCALE),
        Vec3::new(500_000, 500_000, 500_000),
        SCALE,
        0,
        Material::new_color(Color::new(255, 0, 0, 255)),
        None,
    ));
    let backed = cast_ray(&o, &d, &objects, None, None);
    assert_ne!(alone, backed);
    assert!(backed.r > alone.r);
    // a small box behind is not seen through
    objects[1].half_size = Vec3::new(300_000, 300_000, 300_000);
    let small = cast_ray(&o, &d, &objects, None, None);
    assert_eq!(small, alone);
}

#[test]
fn large_transparent_box_shows_its_own_far_side() {
    let mut objects = unit_box(material_glass());
    let o = Vec3::new(0, 0, 5 * SCALE);
    let d = Vec3::new(0, 0, -SCALE);
    let alone = cast_ray(&o, &d, &objects, None, None);
    objects.push(Cube::new(
        Vec3::new(0, 0, -3 * SCALE),
        Vec3::new(500_000, 500_000, 500_000),
        SCALE,
        0,
        Material::new_color(Color::new(255, 0, 0, 255)),
        None,
    ));
    assert_eq!(cast_ray(&o, &d, &objects, None, None), alone);
}

#[test]
fn liquid_is_tinted() {
    let wet = unit_box(material_water());
    let mut dry_material = material_water();
    dry_material.liquid = false;
    let dry = unit_box(dry_material);
    let o = Vec3::new(0, 5 * SCALE, 0);
    let d = Vec3::new(0, -SCALE, 0);
    let a = cast_ray(&o, &d, &wet, None, None);
    let b = cast_ray(&o, &d, &dry, None, None);
    assert_ne!(a, b);
}

#[test]
fn material_colour_falls_back_to_the_base() {
    let m = Material::with_texture(Color::new(9, 8, 7, 255), "missing.png".to_string());
    assert_eq!(sample_material(&m, 0, 0, FaceId::Top, None), Color::new(9, 8, 7, 255));
    let tm = TextureManager::new();
    assert_eq!(sample_material(&m, 0, 0, FaceId::Top, Some(&tm)), Color::new(9, 8, 7, 255));
    assert_eq!(
        sample_material(&material_grass(), 0, 0, FaceId::Top, Some(&tm)),
        Color::new(80, 180, 70, 255)
    );
}

#[test]
fn grass_takes_its_texture_by_face() {
    let mut tm = TextureManager::new();
    tm.load("cesped.png", 1, 1, vec![1, 2, 3, 4]).unwrap();
    tm.load("cesped_de_lado.png", 1, 1, vec![5, 6, 7, 8]).unwrap();
    let g = material_grass();
    assert_eq!(sample_material(&g, 0, 0, FaceId::Top, Some(&tm)), Color::new(1, 2, 3, 4));
    for face in [FaceId::Left, FaceId::Right, FaceId::Front, FaceId::Back] {
        assert_eq!(sample_material(&g, 0, 0, face, Some(&tm)), Color::new(5, 6, 7, 8));
    }
    assert_eq!(sample_material(&g, 0, 0, FaceId::Bottom, Some(&tm)), Color::new(80, 180, 70, 255));
    assert_eq!(sample_material(&g, 0, 0, FaceId::Unknown, Some(&tm)), Color::new(80, 180, 70, 255));
    // without the textures, and for other materials, the base colour
    assert_eq!(sample_material(&g, 0, 0, FaceId::Top, None), Color::new(80, 180, 70, 255));
    assert_eq!(
        sample_material(&material_dirt(), 0, 0, FaceId::Top, Some(&tm)),
        Color::new(120, 85, 55, 255)
    );
    // a material's own texture comes first
    let mut own = material_grass();
    own.texture = Some("cesped_de_lado.png".to_string());
    assert_eq!(sample_material(&own, 0, 0, FaceId::Top, Some(&tm)), Color::new(5, 6, 7, 8));
}

#[test]
fn texture_coordinates_are_scaled_by_the_material() {
    let mut tm = TextureManager::new();
    // two pixels side by side
    tm.load("t.png", 2, 1, vec![1, 1, 1, 1, 2, 2, 2, 2]).unwrap();
    let mut m = Material::with_texture(Color::new(0, 0, 0, 255), "t.png".to_string());
    assert_eq!(sample_material(&m, 300_000, 0, FaceId::Top, Some(&tm)), Color::new(1, 1, 1, 1));
    m.uv_scale = 2 * SCALE;
    assert_eq!(sample_material(&m, 300_000, 0, FaceId::Top, Some(&tm)), Color::new(2, 2, 2, 2));
}

#[test]
fn scene_materials() {
    let g = material_grass();
    assert_eq!(g.diffuse, Color::new(80, 180, 70, 255));
    assert_eq!((g.specular, g.reflectivity, g.transparency, g.ior), (80_000, 20_000, 0, SCALE));
    assert!(g.grass_like && !g.unlit && !g.liquid);
    let w = material_water();
    assert_eq!(w.diffuse, Color::new(96, 170, 230, 220));
    assert_eq!(
        (w.specular, w.reflectivity, w.transparency, w.ior),
        (280_000, 50_000, 620_000, 1_330_000)
    );
    assert!(w.liquid);
    let gl = material_glass();
    assert_eq!(
        (gl.specular, gl.reflectivity, gl.transparency, gl.ior),
        (700_000, 450_000, 920_000, 1_450_000)
    );
    assert!(!gl.liquid);
    let d = material_dark_wood();
    assert!(d.unlit);
    assert_eq!((d.specular, d.reflectivity), (80_000, 0));
    assert_eq!(material_dirt().specular, 40_000);
    assert_eq!(material_path().diffuse, Color::new(218, 187, 147, 255));
    assert_eq!(material_stone().diffuse, Color::new(0x66, 0x68, 0x66, 255));
    assert_eq!(material_light_gray().diffuse, Color::new(0xD4, 0xD3, 0xD5, 255));
    assert_eq!(material_wood().reflectivity, 30_000);
    assert_eq!(material_brick().specular, 60_000);
    assert_eq!(material_gold().reflectivity, 250_000);
    assert_eq!(material_pillar().diffuse, Color::new(0xAF, 0x9D, 0x7B, 255));
    assert_eq!(material_pumpkin().diffuse, Color::new(255, 140, 48, 255));
    for m in [material_path(), material_stone(), material_gold(), material_pumpkin()] {
        assert_eq!(m.uv_scale, SCALE);
        assert!(m.texture.is_none());
        assert!(!m.unlit && !m.liquid && !m.grass_like);
    }
    let copy = w.clone();
    assert_eq!(copy.diffuse, w.diffuse);
    assert_eq!(copy.transparency, w.transparency);
}
