//! Materials and hit records.

use vstd::prelude::*;
use crate::color::Color;
use crate::vec3::Vec3;

verus! {

/// The face of a box that a ray meets, named in the box's own frame.
#[derive(Clone, Copy, Debug, PartialEq, Eq)]
pub enum FaceId {
    Top,
    Bottom,
    Left,
    Right,
    Front,
    Back,
    Unknown,
}

/// Surface properties. The fractional fields are fixed-point.
#[derive(Debug)]
pub struct Material {
    pub diffuse: Color,
    pub texture: Option<String>,
    pub uv_scale: i64,
    pub specular: i64,
    pub reflectivity: i64,
    pub transparency: i64,
    pub ior: i64,
    /// The surface shows its base colour as it is, without lighting.
    pub unlit: bool,
    /// The surface is a liquid and is tinted after blending.
    pub liquid: bool,
    /// The surface takes the grass textures, one for the top and one for the sides.
    pub grass_like: bool,
}

/// The material of a plain colour with no texture and no gloss.
pub open spec fn plain_material(diffuse: Color) -> Material {
    Material {
        diffuse,
        texture: None,
        uv_scale: 1_000_000,
        specular: 0,
        reflectivity: 0,
        transparency: 0,
        ior: 1_000_000,
        unlit: false,
        liquid: false,
        grass_like: false,
    }
}

impl Material {
    /// An untextured, matte, opaque material of the given colour.
    pub fn new_color(diffuse: Color) -> (m: Material)
        ensures
            m == plain_material(diffuse),
    {
        Material {
            diffuse,
            texture: None,
            uv_scale: 1_000_000,
            specular: 0,
            reflectivity: 0,
            transparency: 0,
            ior: 1_000_000,
            unlit: false,
            liquid: false,
            grass_like: false,
        }
    }

    /// A matte, opaque material that takes its colour from the named texture
    /// and falls back to `diffuse`.
    pub fn with_texture(diffuse: Color, texture_path: String) -> (m: Material)
        ensures
            m == (Material { texture: Some(texture_path), ..plain_material(diffuse) }),
    {
        Material {
            diffuse,
            texture: Some(texture_path),
            uv_scale: 1_000_000,
            specular: 0,
            reflectivity: 0,
            transparency: 0,
            ior: 1_000_000,
            unlit: false,
            liquid: false,
            grass_like: false,
        }
    }

}

impl Clone for Material {
    /// A copy equal to the material in every field.
    fn clone(&self) -> (m: Material)
        ensures
            m == *self,
    {
        let texture = match &self.texture {
            Some(s) => Some(s.clone()),
            None => None,
        };
        Material {
            diffuse: self.diffuse,
            texture,
            uv_scale: self.uv_scale,
            specular: self.specular,
            reflectivity: self.reflectivity,
            transparency: self.transparency,
            ior: self.ior,
            unlit: self.unlit,
            liquid: self.liquid,
            grass_like: self.grass_like,
        }
    }
}

/// What a ray met, or that it met nothing.
#[derive(Debug)]
pub struct Intersect {
    pub distance: i64,
    pub is_intersecting: bool,
    pub material: Material,
    pub normal: Vec3,
    pub point: Vec3,
    pub uv: (i64, i64),
    pub face: FaceId,
}

/// The record of a miss.
pub open spec fn miss() -> Intersect {
    Intersect {
        distance: 0,
        is_intersecting: false,
        material: plain_material(Color { r: 0, g: 0, b: 0, a: 255 }),
        normal: Vec3 { x: 0, y: 0, z: 0 },
        point: Vec3 { x: 0, y: 0, z: 0 },
        uv: (0, 0),
        face: FaceId::Unknown,
    }
}

impl Intersect {
    /// The record of a hit.
    pub fn new(
        point: Vec3,
        normal: Vec3,
        distance: i64,
        material: Material,
        uv: (i64, i64),
        face: FaceId,
    ) -> (r: Intersect)
        ensures
            r == (Intersect { distance, is_intersecting: true, material, normal, point, uv, face }),
    {
        Intersect { distance, is_intersecting: true, material, normal, point, uv, face }
    }

    /// The record of a miss.
    pub fn empty() -> (r: Intersect)
        ensures
            r == miss(),
    {
        Intersect {
            distance: 0,
            is_intersecting: false,
            material: Material::new_color(Color::new(0, 0, 0, 255)),
            normal: Vec3::new(0, 0, 0),
            point: Vec3::new(0, 0, 0),
            uv: (0, 0),
            face: FaceId::Unknown,
        }
    }

}

impl Clone for Intersect {
    /// A copy equal to the record in every field.
    fn clone(&self) -> (r: Intersect)
        ensures
            r == *self,
    {
        Intersect {
            distance: self.distance,
            is_intersecting: self.is_intersecting,
            material: self.material.clone(),
            normal: self.normal,
            point: self.point,
            uv: self.uv,
            face: self.face,
        }
    }
}

/// A shape that a ray can meet.
pub trait RayIntersect {
    /// What the ray from `o` along `d` meets of the shape.
    spec fn hit(&self, o: Vec3, d: Vec3) -> Intersect;

    /// Intersects the ray from `ray_origin` along `ray_direction` with the shape.
    fn ray_intersect(&self, ray_origin: &Vec3, ray_direction: &Vec3) -> (r: Intersect)
        ensures
            r == self.hit(*ray_origin, *ray_direction),
    ;
}

} // verus!
