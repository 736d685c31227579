//! The pixel sink: a width × height buffer of colors with a background color.
use vstd::prelude::*;
use crate::color::Color;
use crate::lighting::SCREEN_LIMIT;

verus! {

/// Whether `(x, y)` lies on a `width` × `height` buffer.
pub open spec fn on_screen(width: int, height: int, x: int, y: int) -> bool {
    0 <= x < width && 0 <= y < height
}

/// The pixels after writing `c` at `(x, y)`: unchanged when the point is off
/// the buffer.
pub open spec fn write_pixel(pixels: Seq<Color>, width: int, height: int, x: int, y: int, c: Color) -> Seq<Color> {
    if on_screen(width, height, x, y) {
        pixels.update(y * width + x, c)
    } else {
        pixels
    }
}

/// Largest magnitude of a coordinate handed to the rectangle fill.
pub const DRAW_LIMIT: i32 = 0x2000_0000;

/// Pixels after writing `c` at rows `y0 .. y0 + n` of screen column `x`.
pub open spec fn column_filled(p: Seq<Color>, width: int, height: int, x: int, y0: int, n: int, c: Color) -> Seq<Color>
    decreases n,
{
    if n <= 0 {
        p
    } else {
        write_pixel(column_filled(p, width, height, x, y0, n - 1, c), width, height, x, y0 + n - 1, c)
    }
}

/// Pixels after filling columns `x0 .. x0 + n` of the rectangle with corner
/// `(x0, y0)` and height `rh`, column by column.
pub open spec fn rect_filled(
    p: Seq<Color>,
    width: int,
    height: int,
    x0: int,
    y0: int,
    rh: int,
    c: Color,
    n: int,
) -> Seq<Color>
    decreases n,
{
    if n <= 0 {
        p
    } else {
        column_filled(rect_filled(p, width, height, x0, y0, rh, c, n - 1), width, height, x0 + n - 1, y0, rh, c)
    }
}

/// A buffer of pixels stored row by row.
pub struct Framebuffer {
    pub width: i32,
    pub height: i32,
    pub pixels: Vec<Color>,
    pub background: Color,
}

proof fn lemma_index_in_range(width: int, height: int, x: int, y: int)
    requires
        on_screen(width, height, x, y),
        width <= SCREEN_LIMIT,
        height <= SCREEN_LIMIT,
    ensures
        0 <= y * width + x < width * height <= 0x4000_0000,
{
    assert(0 <= y * width + x < width * height <= 0x4000_0000) by (nonlinear_arith)
        requires 0 <= x < width, 0 <= y < height, width <= SCREEN_LIMIT, height <= SCREEN_LIMIT;
}

impl Framebuffer {
    pub open spec fn wf(&self) -> bool {
        0 <= self.width <= SCREEN_LIMIT && 0 <= self.height <= SCREEN_LIMIT && self.pixels@.len()
            == self.width * self.height
    }

    /// The color at `(x, y)`, on the buffer.
    pub open spec fn at(&self, x: int, y: int) -> Color {
        self.pixels@[y * self.width + x]
    }

    /// A buffer of the given size filled with the background color.
    pub fn new(width: i32, height: i32, background_color: Color) -> (f: Framebuffer)
        requires
            0 <= width <= SCREEN_LIMIT,
            0 <= height <= SCREEN_LIMIT,
        ensures
            f.wf(),
            f.width == width && f.height == height,
            f.background == background_color,
            forall|i: int| 0 <= i < f.pixels@.len() ==> f.pixels@[i] == background_color,
    {
        assert(width as usize * height as usize <= 0x4000_0000) by (nonlinear_arith)
            requires 0 <= width <= SCREEN_LIMIT, 0 <= height <= SCREEN_LIMIT;
        let n: usize = width as usize * height as usize;
        let mut pixels: Vec<Color> = Vec::new();
        let mut i: usize = 0;
        while i < n
            invariant
                0 <= i <= n,
                pixels@.len() == i,
                forall|k: int| 0 <= k < i ==> pixels@[k] == background_color,
            decreases n - i,
        {
            pixels.push(background_color);
            i += 1;
        }
        Framebuffer { width, height, pixels, background: background_color }
    }

    /// Fills every pixel with the background color.
    pub fn clear(&mut self)
        requires
            old(self).wf(),
        ensures
            final(self).wf(),
            final(self).width == old(self).width,
            final(self).height == old(self).height,
            final(self).background == old(self).background,
            final(self).pixels@.len() == old(self).pixels@.len(),
            forall|i: int| 0 <= i < final(self).pixels@.len() ==> final(self).pixels@[i] == old(self).background,
    {
        let mut i: usize = 0;
        while i < self.pixels.len()
            invariant
                0 <= i <= self.pixels@.len(),
                self.pixels@.len() == old(self).pixels@.len(),
                self.width == old(self).width,
                self.height == old(self).height,
                self.background == old(self).background,
                forall|k: int| 0 <= k < i ==> self.pixels@[k] == self.background,
            decreases self.pixels@.len() - i,
        {
            let bg = self.background;
            self.pixels.set(i, bg);
            i += 1;
        }
    }

    /// Writes `color` at `(x, y)`; a point off the buffer is ignored.
    pub fn set_pixel(&mut self, x: i32, y: i32, color: Color)
        requires
            old(self).wf(),
        ensures
            final(self).wf(),
            final(self).width == old(self).width,
            final(self).height == old(self).height,
            final(self).background == old(self).background,
            final(self).pixels@ == write_pixel(
                old(self).pixels@,
                old(self).width as int,
                old(self).height as int,
                x as int,
                y as int,
                color,
            ),
    {
        if x >= 0 && x < self.width && y >= 0 && y < self.height {
            proof {
                lemma_index_in_range(self.width as int, self.height as int, x as int, y as int);
            }
            let i = y as usize * self.width as usize + x as usize;
            self.pixels.set(i, color);
        }
    }

    /// The color at `(x, y)`; `None` off the buffer.
    pub fn get_pixel_color(&self, x: i32, y: i32) -> (r: Option<Color>)
        requires
            self.wf(),
        ensures
            r is Some <==> on_screen(self.width as int, self.height as int, x as int, y as int),
            r matches Some(c) ==> c == self.at(x as int, y as int),
    {
        if x >= 0 && x < self.width && y >= 0 && y < self.height {
            proof {
                lemma_index_in_range(self.width as int, self.height as int, x as int, y as int);
            }
            let i = y as usize * self.width as usize + x as usize;
            Some(self.pixels[i])
        } else {
            None
        }
    }

    /// Sets the color that `clear` fills with.
    pub fn set_background_color(&mut self, color: Color)
        ensures
            final(self).background == color,
            final(self).width == old(self).width,
            final(self).height == old(self).height,
            final(self).pixels@ == old(self).pixels@,
    {
        self.background = color;
    }

    /// Fills the `rw` × `rh` rectangle with corner `(x0, y0)`; the part off
    /// the buffer is ignored.
    pub fn fill_rect(&mut self, x0: i32, y0: i32, rw: i32, rh: i32, color: Color)
        requires
            old(self).wf(),
            -DRAW_LIMIT <= x0 <= DRAW_LIMIT,
            -DRAW_LIMIT <= y0 <= DRAW_LIMIT,
            0 <= rw <= DRAW_LIMIT,
            0 <= rh <= DRAW_LIMIT,
        ensures
            final(self).wf(),
            final(self).width == old(self).width,
            final(self).height == old(self).height,
            final(self).background == old(self).background,
            final(self).pixels@ == rect_filled(
                old(self).pixels@,
                old(self).width as int,
                old(self).height as int,
                x0 as int,
                y0 as int,
                rh as int,
                color,
                rw as int,
            ),
    {
        let mut i: i32 = 0;
        while i < rw
            invariant
                0 <= i <= rw <= DRAW_LIMIT,
                -DRAW_LIMIT <= x0 <= DRAW_LIMIT,
                -DRAW_LIMIT <= y0 <= DRAW_LIMIT,
                0 <= rh <= DRAW_LIMIT,
                self.wf(),
                self.width == old(self).width,
                self.height == old(self).height,
                self.background == old(self).background,
                self.pixels@ == rect_filled(
                    old(self).pixels@,
                    self.width as int,
                    self.height as int,
                    x0 as int,
                    y0 as int,
                    rh as int,
                    color,
                    i as int,
                ),
            decreases rw - i,
        {
            let ghost before = self.pixels@;
            let mut k: i32 = 0;
            while k < rh
                invariant
                    0 <= i < rw <= DRAW_LIMIT,
                    0 <= k <= rh <= DRAW_LIMIT,
                    -DRAW_LIMIT <= x0 <= DRAW_LIMIT,
                    -DRAW_LIMIT <= y0 <= DRAW_LIMIT,
                    self.wf(),
                    self.width == old(self).width,
                    self.height == old(self).height,
                    self.background == old(self).background,
                    self.pixels@ == column_filled(
                        before,
                        self.width as int,
                        self.height as int,
                        x0 + i,
                        y0 as int,
                        k as int,
                        color,
                    ),
                decreases rh - k,
            {
                self.set_pixel(x0 + i, y0 + k, color);
                k += 1;
            }
            i += 1;
        }
    }
}

} // verus!
