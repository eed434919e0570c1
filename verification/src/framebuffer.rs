//! The pixel buffer that a frame is drawn into.

use vstd::prelude::*;
use crate::color::Color;

verus! {

/// A grid of pixels, row after row from the top, and the colour that
/// `set_pixel` draws with.
pub struct Framebuffer {
    width: u32,
    height: u32,
    color_buffer: Vec<Color>,
    current_color: Color,
}

/// White, the colour a new buffer draws with.
pub open spec fn white() -> Color {
    Color { r: 255, g: 255, b: 255, a: 255 }
}

/// The side of the block of pixels that one traced ray fills: 3 for a
/// buffer with a side above 1200, else 2.
pub open spec fn render_scale_spec(width: int, height: int) -> int {
    if width > 1200 || height > 1200 {
        3
    } else {
        2
    }
}

/// The number of rays along a side of `side` pixels at the given scale: at least 1.
pub open spec fn rays_along(side: int, scale: int) -> int {
    if side / scale < 1 {
        1
    } else {
        side / scale
    }
}

/// The pixel at position `idx` of a buffer `width` wide after a grid of
/// `w` by `h` colours was drawn into it in square blocks of side `scale`:
/// the colour of its block, or what was there where no block reaches.
pub open spec fn block_pixel(
    before: Seq<Color>,
    colors: Seq<Color>,
    width: int,
    w: int,
    h: int,
    scale: int,
    idx: int,
) -> Color {
    let x = idx % width;
    let y = idx / width;
    if x / scale < w && y / scale < h {
        colors[(y / scale) * w + x / scale]
    } else {
        before[idx]
    }
}

impl Framebuffer {
    /// The buffer holds a pixel for each position: as many as its width
    /// times its height.
    pub open spec fn wf(&self) -> bool {
        self@.len() == self.spec_width() * self.spec_height()
    }

    /// The number of pixels in a row.
    pub closed spec fn spec_width(&self) -> int {
        self.width as int
    }

    /// The number of rows.
    pub closed spec fn spec_height(&self) -> int {
        self.height as int
    }

    /// The pixels, row after row.
    pub closed spec fn view(&self) -> Seq<Color> {
        self.color_buffer@
    }

    /// The colour that `set_pixel` draws with.
    pub closed spec fn pen(&self) -> Color {
        self.current_color
    }

    /// A buffer of the given size, every pixel `background`, that draws in white.
    pub fn new(width: u32, height: u32, background: Color) -> (fb: Framebuffer)
        requires
            width * height <= usize::MAX,
        ensures
            fb.wf(),
            fb.spec_width() == width,
            fb.spec_height() == height,
            fb@ == Seq::new((width * height) as nat, |i: int| background),
            fb.pen() == white(),
    {
        let total: usize = (width as usize) * (height as usize);
        let mut color_buffer: Vec<Color> = Vec::new();
        let mut i: usize = 0;
        while i < total
            invariant
                i <= total,
                color_buffer.len() == i,
                forall|k: int| 0 <= k < i ==> color_buffer[k] == background,
            decreases total - i,
        {
            color_buffer.push(background);
            i = i + 1;
        }
        let fb = Framebuffer {
            width,
            height,
            color_buffer,
            current_color: Color { r: 255, g: 255, b: 255, a: 255 },
        };
        assert(fb@ =~= Seq::new((width * height) as nat, |i: int| background));
        fb
    }

    /// The number of pixels in a row.
    pub fn width(&self) -> (w: u32)
        ensures
            w == self.spec_width(),
    {
        self.width
    }

    /// The number of rows.
    pub fn height(&self) -> (h: u32)
        ensures
            h == self.spec_height(),
    {
        self.height
    }

    /// Sets every pixel to `color`.
    pub fn clear(&mut self, color: Color)
        requires
            old(self).wf(),
        ensures
            final(self).wf(),
            final(self).spec_width() == old(self).spec_width(),
            final(self).spec_height() == old(self).spec_height(),
            final(self).pen() == old(self).pen(),
            final(self)@ == Seq::new(old(self)@.len(), |i: int| color),
    {
        let n = self.color_buffer.len();
        let mut i: usize = 0;
        while i < n
            invariant
                i <= n,
                self.color_buffer.len() == n,
                self.width == old(self).width,
                self.height == old(self).height,
                self.current_color == old(self).current_color,
                forall|k: int| 0 <= k < i ==> self.color_buffer[k] == color,
            decreases n - i,
        {
            self.color_buffer.set(i, color);
            i = i + 1;
        }
        assert(self@ =~= Seq::new(old(self)@.len(), |i: int| color));
    }

    /// Chooses the colour that `set_pixel` draws with.
    pub fn set_current_color(&mut self, color: Color)
        ensures
            final(self).pen() == color,
            final(self)@ == old(self)@,
            final(self).spec_width() == old(self).spec_width(),
            final(self).spec_height() == old(self).spec_height(),
            final(self).wf() == old(self).wf(),
    {
        self.current_color = color;
    }

    /// Draws the pixel in column `x` of row `y` in the current colour. A
    /// position outside the buffer is left alone.
    pub fn set_pixel(&mut self, x: u32, y: u32)
        requires
            old(self).wf(),
        ensures
            final(self).wf(),
            final(self).pen() == old(self).pen(),
            final(self).spec_width() == old(self).spec_width(),
            final(self).spec_height() == old(self).spec_height(),
            x < old(self).spec_width() && y < old(self).spec_height() ==> final(self)@ == old(
                self,
            )@.update(y * old(self).spec_width() + x, old(self).pen()),
            !(x < old(self).spec_width() && y < old(self).spec_height()) ==> final(self)@ == old(
                self,
            )@,
    {
        if x < self.width && y < self.height {
            let w: usize = self.width as usize;
            let h: usize = self.height as usize;
            let xi: usize = x as usize;
            let yi: usize = y as usize;
            assert(0 <= yi * w && yi * w + xi < w * h) by (nonlinear_arith)
                requires
                    xi < w,
                    yi < h,
            ;
            assert(w * h == self.color_buffer.len());
            let at: usize = yi * w + xi;
            self.color_buffer.set(at, self.current_color);
        }
    }

    /// Draws a grid of `w` by `h` colours, the first `w * h` of `colors`
    /// row after row, each as a square block of side `scale`. Blocks are cut
    /// off at the buffer's edges; the last colour of the grid stays the
    /// current colour.
    pub fn draw_blocks(&mut self, colors: &Vec<Color>, w: u32, h: u32, scale: u32)
        requires
            old(self).wf(),
            colors.len() >= w * h,
            scale > 0,
        ensures
            final(self).wf(),
            final(self).spec_width() == old(self).spec_width(),
            final(self).spec_height() == old(self).spec_height(),
            final(self).pen() == (if w * h > 0 {
                colors[w * h - 1]
            } else {
                old(self).pen()
            }),
            final(self)@ == Seq::new(
                old(self)@.len(),
                |idx: int|
                    block_pixel(
                        old(self)@,
                        colors@,
                        old(self).spec_width(),
                        w as int,
                        h as int,
                        scale as int,
                        idx,
                    ),
            ),
    {
        let n = self.color_buffer.len();
        let width: usize = self.width as usize;
        let ghost before = self.color_buffer@;
        let mut idx: usize = 0;
        while idx < n
            invariant
                idx <= n,
                n == self.color_buffer.len(),
                n == width * self.height,
                width == self.width,
                self.width == old(self).width,
                self.height == old(self).height,
                self.current_color == old(self).current_color,
                colors.len() >= w * h,
                scale > 0,
                before == old(self)@,
                forall|k: int|
                    0 <= k < idx ==> self.color_buffer[k] == block_pixel(
                        before,
                        colors@,
                        width as int,
                        w as int,
                        h as int,
                        scale as int,
                        k,
                    ),
                forall|k: int| idx <= k < n ==> self.color_buffer[k] == before[k],
            decreases n - idx,
        {
            assert(width > 0) by (nonlinear_arith)
                requires
                    idx < width * self.height,
            ;
            let x: usize = idx % width;
            let y: usize = idx / width;
            let sx: usize = x / (scale as usize);
            let sy: usize = y / (scale as usize);
            if sx < w as usize && sy < h as usize {
                let ws: usize = w as usize;
                let hs: usize = h as usize;
                assert(0 <= sy * ws && sy * ws + sx < ws * hs) by (nonlinear_arith)
                    requires
                        sx < ws,
                        sy < hs,
                ;
                let c = colors[sy * ws + sx];
                self.color_buffer.set(idx, c);
            }
            idx = idx + 1;
        }
        let ws: usize = w as usize;
        let hs: usize = h as usize;
        if ws > 0 && hs > 0 {
            assert(1 <= ws * hs <= colors.len()) by (nonlinear_arith)
                requires
                    ws > 0,
                    hs > 0,
                    ws * hs <= colors.len(),
            ;
            self.current_color = colors[ws * hs - 1];
        } else {
            assert(ws * hs == 0) by (nonlinear_arith)
                requires
                    ws == 0 || hs == 0,
            ;
        }
        assert(self@ =~= Seq::new(
            old(self)@.len(),
            |idx: int|
                block_pixel(
                    old(self)@,
                    colors@,
                    old(self).spec_width(),
                    w as int,
                    h as int,
                    scale as int,
                    idx,
                ),
        ));
    }

    /// The colour of the pixel in column `x` of row `y`.
    pub fn pixel(&self, x: u32, y: u32) -> (c: Color)
        requires
            self.wf(),
            x < self.spec_width(),
            y < self.spec_height(),
        ensures
            c == self@[y * self.spec_width() + x],
    {
        let w: usize = self.width as usize;
        let h: usize = self.height as usize;
        let xi: usize = x as usize;
        let yi: usize = y as usize;
        assert(0 <= yi * w && yi * w + xi < w * h) by (nonlinear_arith)
            requires
                xi < w,
                yi < h,
        ;
        assert(w * h == self.color_buffer.len());
        self.color_buffer[yi * w + xi]
    }

    /// The pixels, row after row.
    pub fn image(&self) -> (px: &Vec<Color>)
        ensures
            px@ == self@,
    {
        &self.color_buffer
    }
}

/// The side of the block of pixels that one traced ray fills in a buffer of
/// the given size.
pub fn render_scale(width: u32, height: u32) -> (s: u32)
    ensures
        s == render_scale_spec(width as int, height as int),
{
    if width > 1200 || height > 1200 {
        3
    } else {
        2
    }
}

/// The number of rays traced along a side of `side` pixels at the given scale.
pub fn ray_count(side: u32, scale: u32) -> (n: u32)
    requires
        scale > 0,
    ensures
        n == rays_along(side as int, scale as int),
        n >= 1,
{
    let n = side / scale;
    if n < 1 {
        1
    } else {
        n
    }
}

} // verus!
