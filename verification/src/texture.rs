//! Textures by name, and their sampling.

use vstd::prelude::*;
use vstd::hash_map::StringHashMap;
use crate::color::Color;
use crate::fixed::SCALE;

verus! {

/// A decoded image: rows of RGBA pixels, the first row at the top.
#[verifier::external_body]
pub struct Texture {
    img: image::RgbaImage,
}

/// The number of pixels in a row of the image.
pub uninterp spec fn texture_width(t: Texture) -> int;

/// The number of rows of the image.
pub uninterp spec fn texture_height(t: Texture) -> int;

/// The bytes of the image, four to a pixel, row after row.
pub uninterp spec fn texture_bytes(t: Texture) -> Seq<u8>;

/// The pixel in column `x` of row `y`.
pub open spec fn texture_pixel(t: Texture, x: int, y: int) -> Color {
    let at = 4 * (y * texture_width(t) + x);
    let b = texture_bytes(t);
    Color { r: b[at], g: b[at + 1], b: b[at + 2], a: b[at + 3] }
}

/// `image::ImageBuffer::from_raw`: the buffer is taken as an image of the
/// given size if it holds at least four bytes for each pixel, and is kept
/// whole; else there is no image. The count of bytes is taken in `usize`,
/// first for a row and then for all rows, and a count that does not fit
/// gives no image.
#[verifier::external_body]
fn image_from_raw(width: u32, height: u32, data: Vec<u8>) -> (r: Option<Texture>)
    ensures
        r.is_some() <==> fits_image(width as int, height as int, data@.len() as int),
        r matches Some(t) ==> texture_width(t) == width && texture_height(t) == height
            && texture_bytes(t) == data@,
{
    match image::RgbaImage::from_raw(width, height, data) {
        Some(img) => Some(Texture { img }),
        None => None,
    }
}

/// A buffer of `len` bytes holds an image of the given size: four bytes for
/// each pixel, with a row's bytes countable in `usize`.
pub open spec fn fits_image(width: int, height: int, len: int) -> bool {
    4 * width <= usize::MAX && 4 * width * height <= len
}

/// `image::ImageBuffer::dimensions`: the width and the height that the
/// image was made with.
#[verifier::external_body]
fn image_dimensions(t: &Texture) -> (r: (u32, u32))
    ensures
        r.0 == texture_width(*t),
        r.1 == texture_height(*t),
{
    t.img.dimensions()
}

/// `image::ImageBuffer::get_pixel`: the four bytes of the pixel in column
/// `x` of row `y`. The call panics outside the image, so the position must
/// lie inside.
#[verifier::external_body]
fn image_get_pixel(t: &Texture, x: u32, y: u32) -> (c: Color)
    requires
        x < texture_width(*t),
        y < texture_height(*t),
    ensures
        c == texture_pixel(*t, x as int, y as int),
{
    let p = t.img.get_pixel(x, y);
    Color { r: p.0[0], g: p.0[1], b: p.0[2], a: p.0[3] }
}

/// Why a texture was not taken.
#[derive(Clone, Copy, Debug, PartialEq, Eq)]
pub enum TextureError {
    /// The pixel buffer is shorter than the size asks for.
    BufferTooSmall,
}

/// The textures of a scene, each under its name.
pub struct TextureManager {
    images: StringHashMap<Texture>,
}

/// The texture coordinate `u` wrapped into one tile: its fractional part,
/// never negative.
pub open spec fn wrap_unit(u: int) -> int {
    u % (SCALE as int)
}

/// The pixel column for the horizontal coordinate `u` in an image `w` wide.
pub open spec fn texel_x(u: int, w: int) -> int {
    ((wrap_unit(u) * w) / (SCALE as int)) % w
}

/// The pixel row for the vertical coordinate `v` in an image `h` high.
/// The coordinate runs upward and the rows run downward.
pub open spec fn texel_y(v: int, h: int) -> int {
    (((SCALE - wrap_unit(v)) * h) / (SCALE as int)) % h
}

/// The colour of the texture `t` at the coordinates `(u, v)`, which tile;
/// none for an image without pixels.
pub open spec fn texel(t: Texture, u: int, v: int) -> Option<Color> {
    let w = texture_width(t);
    let h = texture_height(t);
    if w == 0 || h == 0 {
        None
    } else {
        Some(texture_pixel(t, texel_x(u, w), texel_y(v, h)))
    }
}

fn wrap(u: i64) -> (r: i64)
    ensures
        r == wrap_unit(u as int),
        0 <= r < SCALE,
{
    let r: i64 = u % 1_000_000;
    if r < 0 {
        r + 1_000_000
    } else {
        r
    }
}

impl TextureManager {
    /// The textures held, by name.
    pub closed spec fn view(&self) -> Map<Seq<char>, Texture> {
        self.images@
    }

    /// The colour that the texture `name` shows at `(u, v)`; none if there
    /// is no such texture.
    pub open spec fn sample_spec(&self, name: Seq<char>, u: int, v: int) -> Option<Color> {
        if self@.contains_key(name) {
            texel(self@[name], u, v)
        } else {
            None
        }
    }

    /// A manager that holds no texture.
    pub fn new() -> (tm: TextureManager)
        ensures
            tm@ == Map::<Seq<char>, Texture>::empty(),
    {
        TextureManager { images: StringHashMap::new() }
    }

    /// Takes the image of the given size and pixels under the name
    /// `rel_path`, in place of any that had the name. A buffer shorter than
    /// four bytes for each pixel, or a row too long to count, is refused and
    /// changes nothing.
    pub fn load(&mut self, rel_path: &str, width: u32, height: u32, rgba: Vec<u8>) -> (r: Result<
        (),
        TextureError,
    >)
        ensures
            r.is_ok() <==> fits_image(width as int, height as int, rgba@.len() as int),
            r.is_err() ==> final(self)@ == old(self)@ && r == Err::<(), TextureError>(
                TextureError::BufferTooSmall,
            ),
            r.is_ok() ==> final(self)@.contains_key(rel_path@) && final(self)@ == old(self)@.insert(
                rel_path@,
                final(self)@[rel_path@],
            ) && {
                let t = final(self)@[rel_path@];
                texture_width(t) == width && texture_height(t) == height && texture_bytes(t)
                    == rgba@
            },
    {
        let tex = match image_from_raw(width, height, rgba) {
            Some(t) => t,
            None => {
                return Err(TextureError::BufferTooSmall);
            },
        };
        self.images.insert(rel_path.to_owned(), tex);
        Ok(())
    }

    /// The colour of the texture `rel_path` at the coordinates `(u, v)`.
    /// The coordinates tile, and `v` runs upward from the bottom row.
    pub fn sample(&self, rel_path: &str, u: i64, v: i64) -> (r: Option<Color>)
        ensures
            r == self.sample_spec(rel_path@, u as int, v as int),
    {
        let img = match self.images.get(rel_path) {
            Some(img) => img,
            None => {
                return None;
            },
        };
        let (w, h) = image_dimensions(img);
        if w == 0 || h == 0 {
            return None;
        }
        let uu = wrap(u);
        let vv = 1_000_000 - wrap(v);
        let x = pixel_index(uu, w);
        let y = pixel_index(vv, h);
        Some(image_get_pixel(img, x, y))
    }
}

/// The pixel index along a side of `n` pixels for the wrapped coordinate
/// `c`: `c * n`, rounded down and taken modulo `n`.
fn pixel_index(c: i64, n: u32) -> (r: u32)
    requires
        0 <= c <= SCALE,
        n > 0,
    ensures
        r == ((c * n) / (SCALE as int)) % (n as int),
        r < n,
{
    let cw: u64 = c as u64;
    let nw: u64 = n as u64;
    assert(cw * nw <= 1_000_000 * 0xffff_ffff) by (nonlinear_arith)
        requires
            cw <= 1_000_000,
            nw <= 0xffff_ffff,
    ;
    let wide: u64 = cw * nw;
    let q: u64 = wide / 1_000_000;
    (q % (n as u64)) as u32
}

} // verus!
