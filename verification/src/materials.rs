//! The materials of the scene.

use vstd::prelude::*;
use crate::color::Color;
use crate::ray_intersect::{plain_material, Material};

verus! {

/// Grass: green, faintly glossy, textured by face.
pub fn material_grass() -> (m: Material)
    ensures
        m == (Material {
            specular: 80_000,
            reflectivity: 20_000,
            grass_like: true,
            ..plain_material(Color { r: 80, g: 180, b: 70, a: 255 })
        }),
{
    let mut m = Material::new_color(Color::new(80, 180, 70, 255));
    m.specular = 80_000;
    m.reflectivity = 20_000;
    m.grass_like = true;
    m
}

/// Dirt: brown and dull.
pub fn material_dirt() -> (m: Material)
    ensures
        m == (Material { specular: 40_000, ..plain_material(Color { r: 120, g: 85, b: 55, a: 255 }) }),
{
    let mut m = Material::new_color(Color::new(120, 85, 55, 255));
    m.specular = 40_000;
    m
}

/// The sandy path.
pub fn material_path() -> (m: Material)
    ensures
        m == (Material {
            specular: 180_000,
            reflectivity: 60_000,
            ..plain_material(Color { r: 218, g: 187, b: 147, a: 255 })
        }),
{
    let mut m = Material::new_color(Color::new(218, 187, 147, 255));
    m.specular = 180_000;
    m.reflectivity = 60_000;
    m
}

/// Dark grey stone.
pub fn material_stone() -> (m: Material)
    ensures
        m == (Material {
            specular: 250_000,
            reflectivity: 60_000,
            ..plain_material(Color { r: 0x66, g: 0x68, b: 0x66, a: 255 })
        }),
{
    let mut m = Material::new_color(Color::new(0x66, 0x68, 0x66, 255));
    m.specular = 250_000;
    m.reflectivity = 60_000;
    m
}

/// Light grey stone.
pub fn material_light_gray() -> (m: Material)
    ensures
        m == (Material {
            specular: 250_000,
            reflectivity: 60_000,
            ..plain_material(Color { r: 0xD4, g: 0xD3, b: 0xD5, a: 255 })
        }),
{
    let mut m = Material::new_color(Color::new(0xD4, 0xD3, 0xD5, 255));
    m.specular = 250_000;
    m.reflectivity = 60_000;
    m
}

/// Light wood.
pub fn material_wood() -> (m: Material)
    ensures
        m == (Material {
            specular: 120_000,
            reflectivity: 30_000,
            ..plain_material(Color { r: 160, g: 115, b: 70, a: 255 })
        }),
{
    let mut m = Material::new_color(Color::new(160, 115, 70, 255));
    m.specular = 120_000;
    m.reflectivity = 30_000;
    m
}

/// Pale brick.
pub fn material_brick() -> (m: Material)
    ensures
        m == (Material {
            specular: 60_000,
            reflectivity: 20_000,
            ..plain_material(Color { r: 200, g: 180, b: 145, a: 255 })
        }),
{
    let mut m = Material::new_color(Color::new(200, 180, 145, 255));
    m.specular = 60_000;
    m.reflectivity = 20_000;
    m
}

/// Water: a see-through, slightly mirroring liquid.
pub fn material_water() -> (m: Material)
    ensures
        m == (Material {
            specular: 280_000,
            reflectivity: 50_000,
            transparency: 620_000,
            ior: 1_330_000,
            liquid: true,
            ..plain_material(Color { r: 96, g: 170, b: 230, a: 220 })
        }),
{
    let mut m = Material::new_color(Color::new(96, 170, 230, 220));
    m.specular = 280_000;
    m.reflectivity = 50_000;
    m.transparency = 620_000;
    m.ior = 1_330_000;
    m.liquid = true;
    m
}

/// Glass: almost fully see-through and strongly mirroring.
pub fn material_glass() -> (m: Material)
    ensures
        m == (Material {
            specular: 700_000,
            reflectivity: 450_000,
            transparency: 920_000,
            ior: 1_450_000,
            ..plain_material(Color { r: 220, g: 235, b: 255, a: 150 })
        }),
{
    let mut m = Material::new_color(Color::new(220, 235, 255, 150));
    m.specular = 700_000;
    m.reflectivity = 450_000;
    m.transparency = 920_000;
    m.ior = 1_450_000;
    m
}

/// Gold: glossy and mirroring.
pub fn material_gold() -> (m: Material)
    ensures
        m == (Material {
            specular: 700_000,
            reflectivity: 250_000,
            ..plain_material(Color { r: 255, g: 200, b: 64, a: 255 })
        }),
{
    let mut m = Material::new_color(Color::new(255, 200, 64, 255));
    m.specular = 700_000;
    m.reflectivity = 250_000;
    m
}

/// Dark wood, shown unlit.
pub fn material_dark_wood() -> (m: Material)
    ensures
        m == (Material {
            specular: 80_000,
            unlit: true,
            ..plain_material(Color { r: 0x7F, g: 0x66, b: 0x45, a: 255 })
        }),
{
    let mut m = Material::new_color(Color::new(0x7F, 0x66, 0x45, 255));
    m.specular = 80_000;
    m.unlit = true;
    m
}

/// The sandstone of the pillars.
pub fn material_pillar() -> (m: Material)
    ensures
        m == (Material {
            specular: 280_000,
            reflectivity: 50_000,
            ..plain_material(Color { r: 0xAF, g: 0x9D, b: 0x7B, a: 255 })
        }),
{
    let mut m = Material::new_color(Color::new(0xAF, 0x9D, 0x7B, 255));
    m.specular = 280_000;
    m.reflectivity = 50_000;
    m
}

/// Pumpkin orange.
pub fn material_pumpkin() -> (m: Material)
    ensures
        m == (Material {
            specular: 220_000,
            reflectivity: 60_000,
            ..plain_material(Color { r: 255, g: 140, b: 48, a: 255 })
        }),
{
    let mut m = Material::new_color(Color::new(255, 140, 48, 255));
    m.specular = 220_000;
    m.reflectivity = 60_000;
    m
}

} // verus!
