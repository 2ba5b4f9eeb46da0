//! Colours and software drawing into a pixel buffer.

use vstd::prelude::*;
use crate::bitmap_font::glyph;
use crate::bitmap_font::glyph_of;
use crate::bitmap_font::inked;
use crate::bitmap_font::is_inked;
use crate::bitmap_font::GLYPH_CELLS;
use crate::bitmap_font::GLYPH_COLS;
use crate::font::TextBitmap;

verus! {

/// The 32-bit word that holds four 8-bit channels, alpha highest, blue lowest.
pub open spec fn pack_argb(a: u8, r: u8, g: u8, b: u8) -> u32 {
    (a as int * 0x100_0000 + r as int * 0x1_0000 + g as int * 0x100 + b as int) as u32
}

/// The channel of `word` that starts `shift / 8` bytes above the lowest.
pub open spec fn channel(word: u32, shift: int) -> int {
    (word as int / pow256(shift)) % 256
}

/// 256 to the power `shift / 8`, for the four byte positions of a word.
pub open spec fn pow256(shift: int) -> int {
    if shift == 24 {
        0x100_0000
    } else if shift == 16 {
        0x1_0000
    } else if shift == 8 {
        0x100
    } else {
        1
    }
}

/// A colour in ARGB format.
#[derive(Debug, Clone, Copy, PartialEq, Eq, Structural)]
pub struct Color(pub u32);

impl Color {
    /// Opaque white.
    pub fn white() -> (c: Color)
        ensures
            c.0 == 0xFFFFFFFFu32,
    {
        Color(0xFFFFFFFF)
    }

    /// Opaque black.
    pub fn black() -> (c: Color)
        ensures
            c.0 == 0xFF000000u32,
    {
        Color(0xFF000000)
    }

    /// Opaque red.
    pub fn red() -> (c: Color)
        ensures
            c.0 == 0xFFFF0000u32,
    {
        Color(0xFFFF0000)
    }

    /// Opaque green.
    pub fn green() -> (c: Color)
        ensures
            c.0 == 0xFF00FF00u32,
    {
        Color(0xFF00FF00)
    }

    /// Opaque blue.
    pub fn blue() -> (c: Color)
        ensures
            c.0 == 0xFF0000FFu32,
    {
        Color(0xFF0000FF)
    }

    /// Opaque yellow.
    pub fn yellow() -> (c: Color)
        ensures
            c.0 == 0xFFFFFF00u32,
    {
        Color(0xFFFFFF00)
    }

    /// Opaque cyan.
    pub fn cyan() -> (c: Color)
        ensures
            c.0 == 0xFF00FFFFu32,
    {
        Color(0xFF00FFFF)
    }

    /// Opaque magenta.
    pub fn magenta() -> (c: Color)
        ensures
            c.0 == 0xFFFF00FFu32,
    {
        Color(0xFFFF00FF)
    }

    /// An opaque colour from its red, green and blue channels.
    pub fn rgb(r: u8, g: u8, b: u8) -> (c: Color)
        ensures
            c.0 == pack_argb(255, r, g, b),
    {
        let word: u32 = 0xFF000000u32 | ((r as u32) << 16) | ((g as u32) << 8) | (b as u32);
        assert(word == (255 * 0x100_0000 + r as u32 * 0x1_0000 + g as u32 * 0x100 + b as u32)) by (bit_vector)
            requires
                word == 0xFF000000u32 | ((r as u32) << 16) | ((g as u32) << 8) | (b as u32),
        ;
        Color(word)
    }

    /// A colour from its red, green, blue and alpha channels.
    pub fn rgba(r: u8, g: u8, b: u8, a: u8) -> (c: Color)
        ensures
            c.0 == pack_argb(a, r, g, b),
    {
        let word: u32 = ((a as u32) << 24) | ((r as u32) << 16) | ((g as u32) << 8) | (b as u32);
        assert(word == (a as u32 * 0x100_0000 + r as u32 * 0x1_0000 + g as u32 * 0x100 + b as u32)) by (bit_vector)
            requires
                word == ((a as u32) << 24) | ((r as u32) << 16) | ((g as u32) << 8) | (b as u32),
        ;
        Color(word)
    }

    /// The red channel.
    pub fn r(&self) -> (v: u8)
        ensures
            v == channel(self.0, 16),
    {
        let word: u32 = self.0;
        let v: u32 = (word >> 16) & 0xFF;
        assert(v == (word / 0x1_0000) % 256) by (bit_vector)
            requires
                v == (word >> 16) & 0xFF,
        ;
        v as u8
    }

    /// The green channel.
    pub fn g(&self) -> (v: u8)
        ensures
            v == channel(self.0, 8),
    {
        let word: u32 = self.0;
        let v: u32 = (word >> 8) & 0xFF;
        assert(v == (word / 0x100) % 256) by (bit_vector)
            requires
                v == (word >> 8) & 0xFF,
        ;
        v as u8
    }

    /// The blue channel.
    pub fn b(&self) -> (v: u8)
        ensures
            v == channel(self.0, 0),
    {
        let word: u32 = self.0;
        let v: u32 = word & 0xFF;
        assert(v == word % 256) by (bit_vector)
            requires
                v == word & 0xFF,
        ;
        v as u8
    }

    /// The alpha channel.
    pub fn a(&self) -> (v: u8)
        ensures
            v == channel(self.0, 24),
    {
        let word: u32 = self.0;
        let v: u32 = (word >> 24) & 0xFF;
        assert(v == (word / 0x100_0000) % 256) by (bit_vector)
            requires
                v == (word >> 24) & 0xFF,
        ;
        v as u8
    }
}

/// Packing four channels and reading them back gives the same four channels.
pub proof fn lemma_channels_of_packed(a: u8, r: u8, g: u8, b: u8)
    ensures
        channel(pack_argb(a, r, g, b), 24) == a,
        channel(pack_argb(a, r, g, b), 16) == r,
        channel(pack_argb(a, r, g, b), 8) == g,
        channel(pack_argb(a, r, g, b), 0) == b,
{
    let top: u32 = a as u32;
    let red: u32 = r as u32;
    let green: u32 = g as u32;
    let blue: u32 = b as u32;
    let word: u32 = pack_argb(a, r, g, b);
    assert(word == top * 0x100_0000 + red * 0x1_0000 + green * 0x100 + blue);
    assert((word / 0x100_0000) % 256 == top && (word / 0x1_0000) % 256 == red && (word / 0x100) % 256
        == green && word % 256 == blue) by (bit_vector)
        requires
            top < 256,
            red < 256,
            green < 256,
            blue < 256,
            word == top * 0x100_0000 + red * 0x1_0000 + green * 0x100 + blue,
    ;
}

/// A software renderer: a buffer of `width * height` pixels, row by row.
pub struct Renderer2D {
    buffer: Vec<u32>,
    width: usize,
    height: usize,
}

/// Whether `(x, y)` is a pixel of a buffer of the given size.
pub open spec fn in_frame(width: int, height: int, x: int, y: int) -> bool {
    0 <= x < width && 0 <= y < height
}

/// Whether `(px, py)` lies in the rectangle that starts at `(x, y)` and is
/// `width` wide and `height` high.
pub open spec fn in_rect(x: int, y: int, width: int, height: int, px: int, py: int) -> bool {
    x <= px < x + width && y <= py < y + height
}

/// Whether `(px, py)` lies on the border of that rectangle: on its first or
/// last row, or on its first or last column.
pub open spec fn on_outline(x: int, y: int, width: int, height: int, px: int, py: int) -> bool {
    ||| (x <= px < x + width && (py == y || py == y + height - 1))
    ||| (y <= py < y + height && (px == x || px == x + width - 1))
}

/// Whether `(px, py)` lies in the disc around `(cx, cy)` with the given
/// radius.
pub open spec fn in_disc(cx: int, cy: int, radius: int, px: int, py: int) -> bool {
    &&& -radius <= px - cx <= radius
    &&& -radius <= py - cy <= radius
    &&& (px - cx) * (px - cx) + (py - cy) * (py - cy) <= radius * radius
}

/// Whether `after` is `before` with the pixels of `shape` set to `word`:
/// every pixel of the frame that lies in the shape holds `word`, every other
/// pixel is as it was.
pub open spec fn painted(
    before: &Renderer2D,
    after: &Renderer2D,
    word: u32,
    shape: spec_fn(int, int) -> bool,
) -> bool {
    &&& after.wf()
    &&& after.same_size(before)
    &&& forall|px: int, py: int|
        in_frame(after.spec_width(), after.spec_height(), px, py) ==> #[trigger] after.pixel(px, py)
            == (if shape(px, py) {
            word
        } else {
            before.pixel(px, py)
        })
}

impl Renderer2D {
    /// The buffer.
    pub closed spec fn pixels(&self) -> Seq<u32> {
        self.buffer@
    }

    /// The width in pixels.
    pub closed spec fn spec_width(&self) -> int {
        self.width as int
    }

    /// The height in pixels.
    pub closed spec fn spec_height(&self) -> int {
        self.height as int
    }

    /// The buffer holds one word per pixel, and a coordinate fits an `i32`.
    pub open spec fn wf(&self) -> bool {
        &&& self.pixels().len() == self.spec_width() * self.spec_height()
        &&& self.pixels().len() <= usize::MAX
        &&& self.spec_width() <= i32::MAX
        &&& self.spec_height() <= i32::MAX
    }

    /// The pixel at column `x` of row `y`.
    pub open spec fn pixel(&self, x: int, y: int) -> u32 {
        self.pixels()[y * self.spec_width() + x]
    }

    /// Whether two renderers have the same size.
    pub open spec fn same_size(&self, other: &Renderer2D) -> bool {
        self.spec_width() == other.spec_width() && self.spec_height() == other.spec_height()
    }

    /// A renderer of the given size, all pixels nil.
    pub fn new(width: usize, height: usize) -> (renderer: Renderer2D)
        requires
            width <= i32::MAX,
            height <= i32::MAX,
            width * height <= usize::MAX,
        ensures
            renderer.wf(),
            renderer.spec_width() == width,
            renderer.spec_height() == height,
            forall|i: int| 0 <= i < renderer.pixels().len() ==> renderer.pixels()[i] == 0,
    {
        Renderer2D { buffer: vec![0u32; width * height], width, height }
    }

    /// Width and height in pixels.
    pub fn dimensions(&self) -> (size: (usize, usize))
        ensures
            size.0 == self.spec_width(),
            size.1 == self.spec_height(),
    {
        (self.width, self.height)
    }

    /// The buffer, row by row.
    pub fn buffer(&self) -> (buffer: &Vec<u32>)
        ensures
            buffer@ == self.pixels(),
    {
        &self.buffer
    }

    /// Sets every pixel to `color`.
    pub fn clear(&mut self, color: Color)
        requires
            old(self).wf(),
        ensures
            final(self).wf(),
            final(self).same_size(old(self)),
            forall|i: int| 0 <= i < final(self).pixels().len() ==> final(self).pixels()[i] == color.0,
    {
        let mut i: usize = 0;
        while i < self.buffer.len()
            invariant
                0 <= i <= self.buffer.len(),
                self.wf(),
                self.same_size(old(self)),
                forall|k: int| 0 <= k < i ==> self.pixels()[k] == color.0,
            decreases self.buffer.len() - i,
        {
            self.buffer[i] = color.0;
            i = i + 1;
        }
    }

    /// Sets the pixel at `(x, y)` to `color`; outside the buffer the call
    /// does nothing.
    pub fn set_pixel(&mut self, x: i32, y: i32, color: Color)
        requires
            old(self).wf(),
        ensures
            final(self).wf(),
            final(self).same_size(old(self)),
            final(self).pixels() == (if in_frame(
                old(self).spec_width(),
                old(self).spec_height(),
                x as int,
                y as int,
            ) {
                old(self).pixels().update(y * old(self).spec_width() + x, color.0)
            } else {
                old(self).pixels()
            }),
            painted(old(self), final(self), color.0, |px: int, py: int| px == x && py == y),
    {
        if x >= 0 && (x as usize) < self.width && y >= 0 && (y as usize) < self.height {
            proof {
                lemma_index_in_frame(self.width as int, self.height as int, x as int, y as int);
            }
            let index = (y as usize) * self.width + (x as usize);
            self.buffer[index] = color.0;
            proof {
                assert forall|px: int, py: int|
                    in_frame(self.spec_width(), self.spec_height(), px, py) implies self.pixel(px, py)
                    == (if px == x && py == y {
                    color.0
                } else {
                    old(self).pixel(px, py)
                }) by {
                    lemma_index_in_frame(self.width as int, self.height as int, px, py);
                    if !(px == x && py == y) {
                        if py * self.width + px == y * self.width + x {
                            lemma_index_is_injective(self.width as int, x as int, y as int, px, py);
                        }
                    }
                }
            }
        }
    }

    /// Reads the pixel at `(x, y)`; `None` outside the buffer.
    pub fn get_pixel(&self, x: i32, y: i32) -> (found: Option<Color>)
        requires
            self.wf(),
        ensures
            found == (if in_frame(self.spec_width(), self.spec_height(), x as int, y as int) {
                Some(Color(self.pixel(x as int, y as int)))
            } else {
                None
            }),
    {
        if x >= 0 && (x as usize) < self.width && y >= 0 && (y as usize) < self.height {
            proof {
                lemma_index_in_frame(self.width as int, self.height as int, x as int, y as int);
            }
            Some(Color(self.buffer[(y as usize) * self.width + (x as usize)]))
        } else {
            None
        }
    }
}

/// The place of a pixel in the buffer lies within the buffer, and two
/// pixels have two places.
pub proof fn lemma_index_in_frame(width: int, height: int, x: int, y: int)
    requires
        in_frame(width, height, x, y),
    ensures
        0 <= y * width <= y * width + x < width * height,
{
    assert(y * width + x < width * height) by (nonlinear_arith)
        requires
            0 <= x < width,
            0 <= y < height,
    ;
    assert(0 <= y * width) by (nonlinear_arith)
        requires
            0 <= y,
            0 <= width,
    ;
}

/// Two pixels of a frame that have the same place in the buffer are the same
/// pixel.
pub proof fn lemma_index_is_injective(width: int, x: int, y: int, px: int, py: int)
    requires
        0 <= x < width,
        0 <= px < width,
        0 <= y,
        0 <= py,
        y * width + x == py * width + px,
    ensures
        x == px,
        y == py,
{
    if y < py {
        assert(py * width >= (y + 1) * width) by (nonlinear_arith)
            requires
                py >= y + 1,
                width > 0,
        ;
        assert((y + 1) * width == y * width + width) by (nonlinear_arith);
    } else if y > py {
        assert(y * width >= (py + 1) * width) by (nonlinear_arith)
            requires
                y >= py + 1,
                width > 0,
        ;
        assert((py + 1) * width == py * width + width) by (nonlinear_arith);
    }
}

impl Renderer2D {
    /// Fills the rectangle that starts at `(x, y)` and is `width` wide and
    /// `height` high; what lies outside the buffer is left out, and a
    /// rectangle without width or height is empty.
    pub fn draw_rect(&mut self, x: i32, y: i32, width: i32, height: i32, color: Color)
        requires
            old(self).wf(),
            width > 0 && height > 0 ==> x + width - 1 <= i32::MAX && y + height - 1 <= i32::MAX,
        ensures
            painted(
                old(self),
                final(self),
                color.0,
                |px: int, py: int| in_rect(x as int, y as int, width as int, height as int, px, py),
            ),
    {
        let mut dy: i32 = 0;
        while dy < height
            invariant
                0 <= dy,
                dy <= height || (height < 0 && dy == 0),
                old(self).wf(),
                width > 0 && height > 0 ==> x + width - 1 <= i32::MAX && y + height - 1 <= i32::MAX,
                painted(
                    old(self),
                    self,
                    color.0,
                    |px: int, py: int|
                        in_rect(x as int, y as int, width as int, dy as int, px, py),
                ),
            decreases height - dy,
        {
            let mut dx: i32 = 0;
            while dx < width
                invariant
                    0 <= dx,
                    dx <= width || (width < 0 && dx == 0),
                    0 <= dy < height,
                    old(self).wf(),
                    width > 0 && height > 0 ==> x + width - 1 <= i32::MAX && y + height - 1
                        <= i32::MAX,
                    painted(
                        old(self),
                        self,
                        color.0,
                        |px: int, py: int|
                            in_rect(x as int, y as int, width as int, dy as int, px, py) || (py == y
                                + dy && x <= px < x + dx),
                    ),
                decreases width - dx,
            {
                let ghost before = *self;
                self.set_pixel(x + dx, y + dy, color);
                proof {
                    assert forall|px: int, py: int|
                        in_frame(self.spec_width(), self.spec_height(), px, py) implies
                        #[trigger] self.pixel(px, py) == (if in_rect(
                        x as int,
                        y as int,
                        width as int,
                        dy as int,
                        px,
                        py,
                    ) || (py == y + dy && x <= px < x + dx + 1) {
                        color.0
                    } else {
                        old(self).pixel(px, py)
                    }) by {
                        assert(before.pixel(px, py) == before.pixel(px, py));
                    }
                }
                dx = dx + 1;
            }
            proof {
                assert forall|px: int, py: int|
                    in_frame(self.spec_width(), self.spec_height(), px, py) implies
                    #[trigger] self.pixel(px, py) == (if in_rect(
                    x as int,
                    y as int,
                    width as int,
                    dy + 1,
                    px,
                    py,
                ) {
                    color.0
                } else {
                    old(self).pixel(px, py)
                }) by {
                }
            }
            dy = dy + 1;
        }
        proof {
            assert forall|px: int, py: int|
                in_frame(self.spec_width(), self.spec_height(), px, py) implies #[trigger] self.pixel(
                px,
                py,
            ) == (if in_rect(x as int, y as int, width as int, height as int, px, py) {
                color.0
            } else {
                old(self).pixel(px, py)
            }) by {}
        }
    }

    /// Draws the border of the rectangle that starts at `(x, y)` and is
    /// `width` wide and `height` high: its first and last row over the
    /// width, its first and last column over the height.
    pub fn draw_rect_outline(&mut self, x: i32, y: i32, width: i32, height: i32, color: Color)
        requires
            old(self).wf(),
            width > 0 ==> x + width - 1 <= i32::MAX && i32::MIN <= y + height - 1 && y + height
                <= i32::MAX,
            height > 0 ==> y + height - 1 <= i32::MAX && i32::MIN <= x + width - 1 && x + width
                <= i32::MAX,
        ensures
            painted(
                old(self),
                final(self),
                color.0,
                |px: int, py: int| on_outline(x as int, y as int, width as int, height as int, px, py),
            ),
    {
        let mut dx: i32 = 0;
        while dx < width
            invariant
                0 <= dx,
                dx <= width || (width < 0 && dx == 0),
                old(self).wf(),
                width > 0 ==> x + width - 1 <= i32::MAX && i32::MIN <= y + height - 1 && y + height
                    <= i32::MAX,
                painted(
                    old(self),
                    self,
                    color.0,
                    |px: int, py: int| x <= px < x + dx && (py == y || py == y + height - 1),
                ),
            decreases width - dx,
        {
            let ghost before = *self;
            self.set_pixel(x + dx, y, color);
            let ghost between = *self;
            self.set_pixel(x + dx, y + height - 1, color);
            proof {
                assert forall|px: int, py: int|
                    in_frame(self.spec_width(), self.spec_height(), px, py) implies
                    #[trigger] self.pixel(px, py) == (if x <= px < x + dx + 1 && (py == y || py == y
                    + height - 1) {
                    color.0
                } else {
                    old(self).pixel(px, py)
                }) by {
                    assert(between.pixel(px, py) == between.pixel(px, py));
                    assert(before.pixel(px, py) == before.pixel(px, py));
                }
            }
            dx = dx + 1;
        }
        let ghost rows = *self;
        proof {
            assert forall|px: int, py: int|
                in_frame(rows.spec_width(), rows.spec_height(), px, py) implies #[trigger] rows.pixel(
                px,
                py,
            ) == (if x <= px < x + width && (py == y || py == y + height - 1) {
                color.0
            } else {
                old(self).pixel(px, py)
            }) by {}
        }
        let mut dy: i32 = 0;
        while dy < height
            invariant
                0 <= dy,
                dy <= height || (height < 0 && dy == 0),
                old(self).wf(),
                height > 0 ==> y + height - 1 <= i32::MAX && i32::MIN <= x + width - 1 && x + width
                    <= i32::MAX,
                painted(
                    old(self),
                    &rows,
                    color.0,
                    |px: int, py: int|
                        x <= px < x + width && (py == y || py == y + height - 1),
                ),
                painted(
                    &rows,
                    self,
                    color.0,
                    |px: int, py: int| y <= py < y + dy && (px == x || px == x + width - 1),
                ),
            decreases height - dy,
        {
            let ghost before = *self;
            self.set_pixel(x, y + dy, color);
            let ghost between = *self;
            self.set_pixel(x + width - 1, y + dy, color);
            proof {
                assert forall|px: int, py: int|
                    in_frame(self.spec_width(), self.spec_height(), px, py) implies
                    #[trigger] self.pixel(px, py) == (if y <= py < y + dy + 1 && (px == x || px == x
                    + width - 1) {
                    color.0
                } else {
                    rows.pixel(px, py)
                }) by {
                    assert(between.pixel(px, py) == between.pixel(px, py));
                    assert(before.pixel(px, py) == before.pixel(px, py));
                }
            }
            dy = dy + 1;
        }
        proof {
            assert forall|px: int, py: int|
                in_frame(self.spec_width(), self.spec_height(), px, py) implies #[trigger] self.pixel(
                px,
                py,
            ) == (if on_outline(x as int, y as int, width as int, height as int, px, py) {
                color.0
            } else {
                old(self).pixel(px, py)
            }) by {
                assert(rows.pixel(px, py) == rows.pixel(px, py));
            }
        }
    }

    /// Fills the disc around `(center_x, center_y)` with the given radius:
    /// every pixel whose distance from the centre, squared, is at most the
    /// radius squared. A negative radius draws nothing.
    pub fn draw_circle_filled(&mut self, center_x: i32, center_y: i32, radius: i32, color: Color)
        requires
            old(self).wf(),
            radius >= 0 ==> radius <= 32767 && i32::MIN <= center_x - radius && center_x + radius
                <= i32::MAX && i32::MIN <= center_y - radius && center_y + radius <= i32::MAX,
            radius > i32::MIN,
        ensures
            painted(
                old(self),
                final(self),
                color.0,
                |px: int, py: int|
                    in_disc(center_x as int, center_y as int, radius as int, px, py),
            ),
    {
        if radius < 0 {
            return ;
        }
        let mut y: i32 = -radius;
        while y <= radius
            invariant
                0 <= radius <= 32767,
                -radius <= y <= radius + 1,
                old(self).wf(),
                i32::MIN <= center_x - radius && center_x + radius <= i32::MAX,
                i32::MIN <= center_y - radius && center_y + radius <= i32::MAX,
                painted(
                    old(self),
                    self,
                    color.0,
                    |px: int, py: int|
                        in_disc(center_x as int, center_y as int, radius as int, px, py) && py
                            - center_y < y,
                ),
            decreases radius + 1 - y,
        {
            let mut x: i32 = -radius;
            while x <= radius
                invariant
                    0 <= radius <= 32767,
                    -radius <= y <= radius,
                    -radius <= x <= radius + 1,
                    old(self).wf(),
                    i32::MIN <= center_x - radius && center_x + radius <= i32::MAX,
                    i32::MIN <= center_y - radius && center_y + radius <= i32::MAX,
                    painted(
                        old(self),
                        self,
                        color.0,
                        |px: int, py: int|
                            in_disc(center_x as int, center_y as int, radius as int, px, py) && (py
                                - center_y < y || (py - center_y == y && px - center_x < x)),
                    ),
                decreases radius + 1 - x,
            {
                assert(0 <= x * x <= 32767 * 32767 && 0 <= y * y <= 32767 * 32767 && 0 <= radius
                    * radius <= 32767 * 32767) by (nonlinear_arith)
                    requires
                        -32767 <= x <= 32767,
                        -32767 <= y <= 32767,
                        0 <= radius <= 32767,
                ;
                let ghost before = *self;
                let inside = x * x + y * y <= radius * radius;
                if inside {
                    self.set_pixel(center_x + x, center_y + y, color);
                }
                proof {
                    assert forall|px: int, py: int|
                        in_frame(self.spec_width(), self.spec_height(), px, py) implies
                        #[trigger] self.pixel(px, py) == (if in_disc(
                        center_x as int,
                        center_y as int,
                        radius as int,
                        px,
                        py,
                    ) && (py - center_y < y || (py - center_y == y && px - center_x < x + 1)) {
                        color.0
                    } else {
                        old(self).pixel(px, py)
                    }) by {
                        assert(before.pixel(px, py) == before.pixel(px, py));
                    }
                }
                x = x + 1;
            }
            y = y + 1;
        }
    }

    /// Draws a text bitmap with its top left corner at `(x, y)`: each pixel
    /// of the bitmap that is not fully transparent is copied, alpha
    /// included; the others leave the buffer as it is.
    pub fn draw_text_bitmap(&mut self, bitmap: &TextBitmap, x: usize, y: usize)
        requires
            old(self).wf(),
            bitmap.wf(),
            x + bitmap.width <= i32::MAX,
            y + bitmap.height <= i32::MAX,
        ensures
            final(self).wf(),
            final(self).same_size(old(self)),
            forall|px: int, py: int|
                in_frame(final(self).spec_width(), final(self).spec_height(), px, py)
                    ==> #[trigger] final(self).pixel(px, py) == (if shows(*bitmap, px - x, py - y) {
                    bitmap_word(*bitmap, px - x, py - y)
                } else {
                    old(self).pixel(px, py)
                }),
    {
        let mut by: usize = 0;
        while by < bitmap.height
            invariant
                0 <= by <= bitmap.height,
                old(self).wf(),
                bitmap.wf(),
                x + bitmap.width <= i32::MAX,
                y + bitmap.height <= i32::MAX,
                self.wf(),
                self.same_size(old(self)),
                forall|px: int, py: int|
                    in_frame(self.spec_width(), self.spec_height(), px, py) ==> #[trigger] self.pixel(
                        px,
                        py,
                    ) == (if shows(*bitmap, px - x, py - y) && py - y < by {
                        bitmap_word(*bitmap, px - x, py - y)
                    } else {
                        old(self).pixel(px, py)
                    }),
            decreases bitmap.height - by,
        {
            let mut bx: usize = 0;
            while bx < bitmap.width
                invariant
                    0 <= by < bitmap.height,
                    0 <= bx <= bitmap.width,
                    old(self).wf(),
                    bitmap.wf(),
                    x + bitmap.width <= i32::MAX,
                    y + bitmap.height <= i32::MAX,
                    self.wf(),
                    self.same_size(old(self)),
                    forall|px: int, py: int|
                        in_frame(self.spec_width(), self.spec_height(), px, py)
                            ==> #[trigger] self.pixel(px, py) == (if shows(*bitmap, px - x, py - y)
                            && (py - y < by || (py - y == by && px - x < bx)) {
                            bitmap_word(*bitmap, px - x, py - y)
                        } else {
                            old(self).pixel(px, py)
                        }),
                decreases bitmap.width - bx,
            {
                proof {
                    lemma_index_in_frame(
                        bitmap.width as int,
                        bitmap.height as int,
                        bx as int,
                        by as int,
                    );
                    assert(0 <= (by * bitmap.width + bx) * 4 && (by * bitmap.width + bx) * 4 + 3
                        < bitmap.width * bitmap.height * 4) by (nonlinear_arith)
                        requires
                            0 <= by * bitmap.width + bx < bitmap.width * bitmap.height,
                    ;
                }
                let pixel_idx = (by * bitmap.width + bx) * 4;
                let alpha = bitmap.data[pixel_idx + 3];
                let ghost before = *self;
                if alpha > 0 {
                    let r = bitmap.data[pixel_idx];
                    let g = bitmap.data[pixel_idx + 1];
                    let b = bitmap.data[pixel_idx + 2];
                    let color = Color::rgba(r, g, b, alpha);
                    self.set_pixel((x + bx) as i32, (y + by) as i32, color);
                }
                proof {
                    assert forall|px: int, py: int|
                        in_frame(self.spec_width(), self.spec_height(), px, py) implies
                        #[trigger] self.pixel(px, py) == (if shows(*bitmap, px - x, py - y) && (py
                        - y < by || (py - y == by && px - x < bx + 1)) {
                        bitmap_word(*bitmap, px - x, py - y)
                    } else {
                        old(self).pixel(px, py)
                    }) by {
                        assert(before.pixel(px, py) == before.pixel(px, py));
                    }
                }
                bx = bx + 1;
            }
            by = by + 1;
        }
    }
}

/// Whether the bitmap has a pixel at column `bx` of row `by` that is not
/// fully transparent.
pub open spec fn shows(bitmap: TextBitmap, bx: int, by: int) -> bool {
    &&& 0 <= bx < bitmap.width
    &&& 0 <= by < bitmap.height
    &&& bitmap.data@[bitmap.offset(bx, by) + 3] > 0
}

/// The pixel of the bitmap at column `bx` of row `by` as a colour word.
pub open spec fn bitmap_word(bitmap: TextBitmap, bx: int, by: int) -> u32 {
    pack_argb(
        bitmap.data@[bitmap.offset(bx, by) + 3],
        bitmap.data@[bitmap.offset(bx, by)],
        bitmap.data@[bitmap.offset(bx, by) + 1],
        bitmap.data@[bitmap.offset(bx, by) + 2],
    )
}

/// The farthest apart that the ends of a line may lie along one axis, so
/// that three times the distance still fits an `i32`.
pub const MAX_LINE_SPAN: i32 = 715_827_882;

/// The absolute value.
pub open spec fn abs(v: int) -> int {
    if v < 0 {
        -v
    } else {
        v
    }
}

/// One step towards `to`: 1 where `from` lies below it, else -1.
pub open spec fn step_towards(from: int, to: int) -> int {
    if from < to {
        1
    } else {
        -1
    }
}

/// Where the pen stands while a line is traced, and the error term that
/// says which way it goes next.
pub struct Pen {
    pub x: int,
    pub y: int,
    pub err: int,
}

/// The pen after one step of the trace from `(x1, y1)` to `(x2, y2)`: it
/// moves along x where twice the error term is above the negative height of
/// the line, and along y where it is below the width.
pub open spec fn pen_after(pen: Pen, x1: int, y1: int, x2: int, y2: int) -> Pen {
    let dx = abs(x2 - x1);
    let dy = abs(y2 - y1);
    let e2 = 2 * pen.err;
    let along_x = e2 > -dy;
    let along_y = e2 < dx;
    Pen {
        x: if along_x {
            pen.x + step_towards(x1, x2)
        } else {
            pen.x
        },
        y: if along_y {
            pen.y + step_towards(y1, y2)
        } else {
            pen.y
        },
        err: pen.err - (if along_x {
            dy
        } else {
            0
        }) + (if along_y {
            dx
        } else {
            0
        }),
    }
}

/// Whether the trace that stands at `pen` and may take `steps` more steps
/// passes through `(px, py)`. The trace ends at `(x2, y2)`.
pub open spec fn on_trace(pen: Pen, x1: int, y1: int, x2: int, y2: int, px: int, py: int, steps: nat) -> bool
    decreases steps,
{
    (px == pen.x && py == pen.y) || (!(pen.x == x2 && pen.y == y2) && steps > 0 && on_trace(
        pen_after(pen, x1, y1, x2, y2),
        x1,
        y1,
        x2,
        y2,
        px,
        py,
        (steps - 1) as nat,
    ))
}

/// Whether `(px, py)` lies on the line from `(x1, y1)` to `(x2, y2)` as it
/// is traced pixel by pixel.
pub open spec fn on_line(x1: int, y1: int, x2: int, y2: int, px: int, py: int) -> bool {
    on_trace(
        Pen { x: x1, y: y1, err: abs(x2 - x1) - abs(y2 - y1) },
        x1,
        y1,
        x2,
        y2,
        px,
        py,
        (abs(x2 - x1) + abs(y2 - y1)) as nat,
    )
}

impl Renderer2D {
    /// Draws the line from `(x1, y1)` to `(x2, y2)`, both ends included,
    /// one pixel per step along the longer axis; what lies outside the
    /// buffer is left out.
    pub fn draw_line(&mut self, x1: i32, y1: i32, x2: i32, y2: i32, color: Color)
        requires
            old(self).wf(),
            -MAX_LINE_SPAN <= x2 - x1 <= MAX_LINE_SPAN,
            -MAX_LINE_SPAN <= y2 - y1 <= MAX_LINE_SPAN,
        ensures
            painted(
                old(self),
                final(self),
                color.0,
                |px: int, py: int| on_line(x1 as int, y1 as int, x2 as int, y2 as int, px, py),
            ),
            on_line(x1 as int, y1 as int, x2 as int, y2 as int, x1 as int, y1 as int),
            on_line(x1 as int, y1 as int, x2 as int, y2 as int, x2 as int, y2 as int),
    {
        let dx: i32 = if x2 >= x1 {
            x2 - x1
        } else {
            x1 - x2
        };
        let dy: i32 = if y2 >= y1 {
            y2 - y1
        } else {
            y1 - y2
        };
        let sx: i32 = if x1 < x2 {
            1
        } else {
            -1
        };
        let sy: i32 = if y1 < y2 {
            1
        } else {
            -1
        };
        let mut err: i32 = dx - dy;
        let mut x: i32 = x1;
        let mut y: i32 = y1;
        let ghost mut nx: int = 0;
        let ghost mut ny: int = 0;
        let ghost mut steps: nat = (dx + dy) as nat;
        let ghost mut visited: Set<(int, int)> = Set::empty();
        proof {
            assert(dx * (1 + ny) - dy * (1 + nx) == dx - dy) by (nonlinear_arith)
                requires
                    nx == 0,
                    ny == 0,
            ;
        }
        loop
            invariant_except_break
                old(self).wf(),
                dx == abs(x2 - x1),
                dy == abs(y2 - y1),
                0 <= dx <= MAX_LINE_SPAN,
                0 <= dy <= MAX_LINE_SPAN,
                sx == step_towards(x1 as int, x2 as int),
                sy == step_towards(y1 as int, y2 as int),
                0 <= nx <= dx,
                0 <= ny <= dy,
                x == x1 + sx * nx,
                y == y1 + sy * ny,
                err == dx * (1 + ny) - dy * (1 + nx),
                -3 * dy <= 2 * err <= 3 * dx,
                steps >= (dx - nx) + (dy - ny),
                painted(old(self), self, color.0, |px: int, py: int| visited.contains((px, py))),
                forall|px: int, py: int|
                    on_line(x1 as int, y1 as int, x2 as int, y2 as int, px, py) == (
                    #[trigger] visited.contains((px, py)) || on_trace(
                        Pen { x: x as int, y: y as int, err: err as int },
                        x1 as int,
                        y1 as int,
                        x2 as int,
                        y2 as int,
                        px,
                        py,
                        steps,
                    )),
                nx > 0 || ny > 0 ==> visited.contains((x1 as int, y1 as int)),
            ensures
                painted(
                    old(self),
                    self,
                    color.0,
                    |px: int, py: int| on_line(x1 as int, y1 as int, x2 as int, y2 as int, px, py),
                ),
                on_line(x1 as int, y1 as int, x2 as int, y2 as int, x1 as int, y1 as int),
                on_line(x1 as int, y1 as int, x2 as int, y2 as int, x2 as int, y2 as int),
            decreases (dx - nx) + (dy - ny),
        {
            let ghost pen = Pen { x: x as int, y: y as int, err: err as int };
            let ghost before = visited;
            let ghost canvas = *self;
            self.set_pixel(x, y, color);
            proof {
                visited = visited.insert((x as int, y as int));
                assert forall|px: int, py: int|
                    in_frame(self.spec_width(), self.spec_height(), px, py) implies
                    #[trigger] self.pixel(px, py) == (if visited.contains((px, py)) {
                    color.0
                } else {
                    old(self).pixel(px, py)
                }) by {
                    assert(canvas.pixel(px, py) == canvas.pixel(px, py));
                }
            }
            if x == x2 && y == y2 {
                proof {
                    assert forall|px: int, py: int|
                        on_line(x1 as int, y1 as int, x2 as int, y2 as int, px, py)
                        == #[trigger] visited.contains((px, py)) by {
                        assert(on_line(x1 as int, y1 as int, x2 as int, y2 as int, px, py) == (
                        before.contains((px, py)) || on_trace(
                            pen,
                            x1 as int,
                            y1 as int,
                            x2 as int,
                            y2 as int,
                            px,
                            py,
                            steps,
                        )));
                        assert(on_trace(pen, x1 as int, y1 as int, x2 as int, y2 as int, px, py, steps)
                            == (px == pen.x && py == pen.y));
                        assert(visited.contains((px, py)) == (before.contains((px, py)) || (px, py) == (
                            x as int,
                            y as int,
                        )));
                    }
                    assert(visited.contains((x2 as int, y2 as int)));
                    assert(visited.contains((x1 as int, y1 as int)));
                    assert forall|px: int, py: int|
                        in_frame(self.spec_width(), self.spec_height(), px, py) implies
                        #[trigger] self.pixel(px, py) == (if on_line(
                        x1 as int,
                        y1 as int,
                        x2 as int,
                        y2 as int,
                        px,
                        py,
                    ) {
                        color.0
                    } else {
                        old(self).pixel(px, py)
                    }) by {
                        assert(visited.contains((px, py)) == visited.contains((px, py)));
                    }
                }
                break ;
            }
            proof {
                if sx == 1 {
                    assert(x == x1 + nx && x2 == x1 + dx);
                } else {
                    assert(x == x1 - nx && x2 == x1 - dx);
                }
                if sy == 1 {
                    assert(y == y1 + ny && y2 == y1 + dy);
                } else {
                    assert(y == y1 - ny && y2 == y1 - dy);
                }
                assert(nx < dx || ny < dy);
                if nx == dx {
                    assert(dx * (1 + ny) - dy * (1 + nx) <= -dy) by (nonlinear_arith)
                        requires
                            nx == dx,
                            0 <= ny < dy,
                            0 <= dx,
                    ;
                }
                if ny == dy {
                    assert(dx * (1 + ny) - dy * (1 + nx) >= dx) by (nonlinear_arith)
                        requires
                            ny == dy,
                            0 <= nx < dx,
                            0 <= dy,
                    ;
                }
                assert(steps > 0);
            }
            let e2: i32 = 2 * err;
            let along_x = e2 > -dy;
            let along_y = e2 < dx;
            proof {
                assert(along_x || along_y);
                assert(dx * (1 + ny) - dy * (1 + (nx + 1)) == dx * (1 + ny) - dy * (1 + nx) - dy)
                    by (nonlinear_arith);
                assert(dx * (1 + (ny + 1)) - dy * (1 + nx) == dx * (1 + ny) - dy * (1 + nx) + dx)
                    by (nonlinear_arith);
                assert(dx * (1 + (ny + 1)) - dy * (1 + (nx + 1)) == dx * (1 + ny) - dy * (1 + nx) - dy
                    + dx) by (nonlinear_arith);
            }
            if along_x {
                err = err - dy;
                x = x + sx;
                proof {
                    nx = nx + 1;
                }
            }
            if along_y {
                err = err + dx;
                y = y + sy;
                proof {
                    ny = ny + 1;
                }
            }
            proof {
                let allowed = steps;
                steps = (steps - 1) as nat;
                let next = Pen { x: x as int, y: y as int, err: err as int };
                assert(next == pen_after(pen, x1 as int, y1 as int, x2 as int, y2 as int));
                assert forall|px: int, py: int|
                    on_line(x1 as int, y1 as int, x2 as int, y2 as int, px, py) == (
                    #[trigger] visited.contains((px, py)) || on_trace(
                        next,
                        x1 as int,
                        y1 as int,
                        x2 as int,
                        y2 as int,
                        px,
                        py,
                        steps,
                    )) by {
                    assert(on_line(x1 as int, y1 as int, x2 as int, y2 as int, px, py) == (
                    before.contains((px, py)) || on_trace(
                        pen,
                        x1 as int,
                        y1 as int,
                        x2 as int,
                        y2 as int,
                        px,
                        py,
                        allowed,
                    )));
                    assert(on_trace(pen, x1 as int, y1 as int, x2 as int, y2 as int, px, py, allowed)
                        == ((px == pen.x && py == pen.y) || on_trace(
                        next,
                        x1 as int,
                        y1 as int,
                        x2 as int,
                        y2 as int,
                        px,
                        py,
                        steps,
                    )));
                    assert(visited.contains((px, py)) == (before.contains((px, py)) || (px, py) == (
                        pen.x,
                        pen.y,
                    )));
                }
            }
        }
    }
}

/// The largest radius of a traced circle: the decision term, which may grow
/// with the square of the radius, still fits an `i32`.
pub const MAX_CIRCLE_RADIUS: i32 = 32_000;

/// Where the trace of a circle stands in its first octant, and the decision
/// term that says whether it steps inwards next.
pub struct Arc {
    pub x: int,
    pub y: int,
    pub d: int,
}

/// The arc after one step: one pixel further along x, and one pixel
/// inwards along y where the decision term is positive.
pub open spec fn arc_after(arc: Arc) -> Arc {
    if arc.d > 0 {
        Arc { x: arc.x + 1, y: arc.y - 1, d: arc.d + 4 * ((arc.x + 1) - (arc.y - 1)) + 10 }
    } else {
        Arc { x: arc.x + 1, y: arc.y, d: arc.d + 4 * (arc.x + 1) + 6 }
    }
}

/// Whether `(px, py)` is one of the eight mirror images of the point
/// `(x, y)` of the first octant, around the centre `(cx, cy)`.
pub open spec fn in_octants(cx: int, cy: int, x: int, y: int, px: int, py: int) -> bool {
    ||| ((px == cx + x || px == cx - x) && (py == cy + y || py == cy - y))
    ||| ((px == cx + y || px == cx - y) && (py == cy + x || py == cy - x))
}

/// Whether the trace that stands at `arc` and may take `steps` more steps
/// passes through `(px, py)` in one of the octants. The trace ends where it
/// crosses the diagonal.
pub open spec fn on_arc(arc: Arc, cx: int, cy: int, px: int, py: int, steps: nat) -> bool
    decreases steps,
{
    arc.y >= arc.x && (in_octants(cx, cy, arc.x, arc.y, px, py) || (steps > 0 && on_arc(
        arc_after(arc),
        cx,
        cy,
        px,
        py,
        (steps - 1) as nat,
    )))
}

/// Whether `(px, py)` lies on the circle around `(cx, cy)` with the given
/// radius as it is traced pixel by pixel. A circle of negative radius has no
/// pixel.
pub open spec fn on_circle(cx: int, cy: int, radius: int, px: int, py: int) -> bool {
    radius >= 0 && on_arc(Arc { x: 0, y: radius, d: 3 - 2 * radius }, cx, cy, px, py, radius as nat)
}

impl Renderer2D {
    /// Draws the circle around `(center_x, center_y)` with the given
    /// radius, one pixel wide; what lies outside the buffer is left out, and
    /// a negative radius draws nothing.
    pub fn draw_circle(&mut self, center_x: i32, center_y: i32, radius: i32, color: Color)
        requires
            old(self).wf(),
            radius >= 0 ==> radius <= MAX_CIRCLE_RADIUS && i32::MIN <= center_x - radius && center_x
                + radius <= i32::MAX && i32::MIN <= center_y - radius && center_y + radius
                <= i32::MAX,
        ensures
            painted(
                old(self),
                final(self),
                color.0,
                |px: int, py: int|
                    on_circle(center_x as int, center_y as int, radius as int, px, py),
            ),
    {
        if radius < 0 {
            return ;
        }
        let mut x: i32 = 0;
        let mut y: i32 = radius;
        let mut d: i32 = 3 - 2 * radius;
        let ghost mut steps: nat = radius as nat;
        let ghost mut visited: Set<(int, int)> = Set::empty();
        let ghost cx = center_x as int;
        let ghost cy = center_y as int;
        proof {
            assert(3 - 2 * radius == 2 * (0 * 0) + 2 * (radius * radius) - 2 * (radius * radius) + 8
                * 0 - 6 * radius + 4 * radius + 3);
        }
        while y >= x
            invariant
                old(self).wf(),
                0 <= radius <= MAX_CIRCLE_RADIUS,
                cx == center_x,
                cy == center_y,
                i32::MIN <= center_x - radius && center_x + radius <= i32::MAX,
                i32::MIN <= center_y - radius && center_y + radius <= i32::MAX,
                0 <= x <= radius + 1,
                x - 2 <= y <= radius,
                d == 2 * (x * x) + 2 * (y * y) - 2 * (radius * radius) + 8 * x - 6 * y + 4 * radius
                    + 3,
                y >= x ==> steps >= y - x,
                painted(old(self), self, color.0, |px: int, py: int| visited.contains((px, py))),
                forall|px: int, py: int|
                    on_circle(cx, cy, radius as int, px, py) == (#[trigger] visited.contains(
                        (px, py),
                    ) || on_arc(Arc { x: x as int, y: y as int, d: d as int }, cx, cy, px, py, steps)),
            decreases y - x + 2,
        {
            let ghost arc = Arc { x: x as int, y: y as int, d: d as int };
            let ghost before = visited;
            let ghost canvas = *self;
            proof {
                assert(0 <= x * x <= radius * radius && 0 <= y * y <= radius * radius && radius
                    * radius <= 32_000 * 32_000) by (nonlinear_arith)
                    requires
                        0 <= x <= y <= radius <= 32_000,
                ;
            }
            self.set_pixel(center_x + x, center_y + y, color);
            self.set_pixel(center_x - x, center_y + y, color);
            self.set_pixel(center_x + x, center_y - y, color);
            self.set_pixel(center_x - x, center_y - y, color);
            self.set_pixel(center_x + y, center_y + x, color);
            self.set_pixel(center_x - y, center_y + x, color);
            self.set_pixel(center_x + y, center_y - x, color);
            self.set_pixel(center_x - y, center_y - x, color);
            proof {
                visited = Set::new(
                    |p: (int, int)|
                        before.contains(p) || in_octants(cx, cy, x as int, y as int, p.0, p.1),
                );
                assert forall|px: int, py: int|
                    in_frame(self.spec_width(), self.spec_height(), px, py) implies
                    #[trigger] self.pixel(px, py) == (if visited.contains((px, py)) {
                    color.0
                } else {
                    old(self).pixel(px, py)
                }) by {
                    assert(canvas.pixel(px, py) == canvas.pixel(px, py));
                }
            }
            x = x + 1;
            if d > 0 {
                y = y - 1;
                d = d + (4 * (x - y) + 10);
            } else {
                d = d + (4 * x + 6);
            }
            proof {
                let allowed = steps;
                let next = Arc { x: x as int, y: y as int, d: d as int };
                assert(next == arc_after(arc));
                assert(d == 2 * (x * x) + 2 * (y * y) - 2 * (radius * radius) + 8 * x - 6 * y + 4
                    * radius + 3) by (nonlinear_arith)
                    requires
                        arc.d == 2 * (arc.x * arc.x) + 2 * (arc.y * arc.y) - 2 * (radius * radius) + 8
                            * arc.x - 6 * arc.y + 4 * radius + 3,
                        x == arc.x + 1,
                        (arc.d > 0 && y == arc.y - 1 && d == arc.d + 4 * (x - y) + 10) || (arc.d <= 0
                            && y == arc.y && d == arc.d + 4 * x + 6),
                ;
                if y >= x {
                    steps = (steps - 1) as nat;
                }
                assert forall|px: int, py: int|
                    on_circle(cx, cy, radius as int, px, py) == (#[trigger] visited.contains(
                        (px, py),
                    ) || on_arc(next, cx, cy, px, py, steps)) by {
                    assert(on_circle(cx, cy, radius as int, px, py) == (before.contains((px, py))
                        || on_arc(arc, cx, cy, px, py, allowed)));
                    if y >= x {
                        assert(allowed > 0);
                        assert(on_arc(arc, cx, cy, px, py, allowed) == (in_octants(
                            cx,
                            cy,
                            arc.x,
                            arc.y,
                            px,
                            py,
                        ) || on_arc(next, cx, cy, px, py, steps)));
                    } else {
                        assert(!on_arc(next, cx, cy, px, py, steps));
                        if allowed > 0 {
                            assert(!on_arc(next, cx, cy, px, py, (allowed - 1) as nat));
                        }
                        assert(on_arc(arc, cx, cy, px, py, allowed) == in_octants(
                            cx,
                            cy,
                            arc.x,
                            arc.y,
                            px,
                            py,
                        ));
                    }
                    assert(visited.contains((px, py)) == (before.contains((px, py)) || in_octants(
                        cx,
                        cy,
                        arc.x,
                        arc.y,
                        px,
                        py,
                    )));
                }
            }
        }
        proof {
            assert forall|px: int, py: int|
                in_frame(self.spec_width(), self.spec_height(), px, py) implies #[trigger] self.pixel(
                px,
                py,
            ) == (if on_circle(cx, cy, radius as int, px, py) {
                color.0
            } else {
                old(self).pixel(px, py)
            }) by {
                assert(visited.contains((px, py)) == visited.contains((px, py)));
                assert(!on_arc(Arc { x: x as int, y: y as int, d: d as int }, cx, cy, px, py, steps));
            }
        }
    }
}

/// Whether `(px, py)` lies in cell `n` of a glyph that is drawn at `(x, y)`
/// with cells of `scale` by `scale` pixels.
pub open spec fn in_cell(x: int, y: int, scale: int, n: int, px: int, py: int) -> bool {
    in_rect(x + (n % 7) * scale, y + (n / 7) * scale, scale, scale, px, py)
}

/// Whether `(px, py)` lies in an inked cell among the first `upto` cells of
/// a glyph drawn at `(x, y)`.
pub open spec fn in_glyph_upto(bits: u64, x: int, y: int, scale: int, upto: int, px: int, py: int) -> bool
    decreases upto,
{
    upto > 0 && (in_glyph_upto(bits, x, y, scale, upto - 1, px, py) || (inked(bits, upto - 1)
        && in_cell(x, y, scale, upto - 1, px, py)))
}

/// Whether `(px, py)` is inked when `ch` is drawn at `(x, y)` in the
/// built-in font.
pub open spec fn in_glyph(ch: char, x: int, y: int, scale: int, px: int, py: int) -> bool {
    in_glyph_upto(glyph_of(ch), x, y, scale, GLYPH_CELLS as int, px, py)
}

/// Whether `(px, py)` is inked when the first `upto` characters of `text`
/// are drawn from `(x, y)` on, each eight cells after the one before. A
/// space leaves its place empty.
pub open spec fn in_text_upto(text: Seq<char>, x: int, y: int, scale: int, upto: int, px: int, py: int) -> bool
    decreases upto,
{
    upto > 0 && (in_text_upto(text, x, y, scale, upto - 1, px, py) || (text[upto - 1] != ' '
        && in_glyph(text[upto - 1], x + (upto - 1) * 8 * scale, y, scale, px, py)))
}

impl Renderer2D {
    /// Draws a character in the built-in font with its top left corner at
    /// `(x, y)`, each cell of the glyph as a square of `scale` pixels.
    pub fn draw_char_fallback(&mut self, ch: char, x: usize, y: usize, color: Color, scale: usize)
        requires
            old(self).wf(),
            x + 7 * scale <= i32::MAX,
            y + 9 * scale <= i32::MAX,
        ensures
            painted(
                old(self),
                final(self),
                color.0,
                |px: int, py: int| in_glyph(ch, x as int, y as int, scale as int, px, py),
            ),
    {
        let bits = glyph(ch);
        let mut n: usize = 0;
        while n < GLYPH_CELLS
            invariant
                0 <= n <= GLYPH_CELLS,
                old(self).wf(),
                bits == glyph_of(ch),
                x + 7 * scale <= i32::MAX,
                y + 9 * scale <= i32::MAX,
                painted(
                    old(self),
                    self,
                    color.0,
                    |px: int, py: int|
                        in_glyph_upto(bits, x as int, y as int, scale as int, n as int, px, py),
                ),
            decreases GLYPH_CELLS - n,
        {
            let row = n / GLYPH_COLS;
            let col = n % GLYPH_COLS;
            let ghost canvas = *self;
            proof {
                assert(0 <= col * scale <= 6 * scale && 0 <= row * scale <= 8 * scale)
                    by (nonlinear_arith)
                    requires
                        0 <= col <= 6,
                        0 <= row <= 8,
                        0 <= scale,
                ;
            }
            if is_inked(bits, n) {
                let cell_x = x + col * scale;
                let cell_y = y + row * scale;
                self.draw_rect(cell_x as i32, cell_y as i32, scale as i32, scale as i32, color);
            }
            proof {
                assert forall|px: int, py: int|
                    in_frame(self.spec_width(), self.spec_height(), px, py) implies
                    #[trigger] self.pixel(px, py) == (if in_glyph_upto(
                    bits,
                    x as int,
                    y as int,
                    scale as int,
                    n + 1,
                    px,
                    py,
                ) {
                    color.0
                } else {
                    old(self).pixel(px, py)
                }) by {
                    assert(canvas.pixel(px, py) == canvas.pixel(px, py));
                }
            }
            n = n + 1;
        }
    }

    /// Draws a text in the built-in font from `(x, y)` on, one character
    /// every eight cells; spaces are skipped.
    pub fn draw_text_fallback(&mut self, text: &str, x: usize, y: usize, color: Color, scale: usize)
        requires
            old(self).wf(),
            x + text@.len() * 8 * scale <= i32::MAX,
            y + 9 * scale <= i32::MAX,
        ensures
            painted(
                old(self),
                final(self),
                color.0,
                |px: int, py: int|
                    in_text_upto(
                        text@,
                        x as int,
                        y as int,
                        scale as int,
                        text@.len() as int,
                        px,
                        py,
                    ),
            ),
    {
        let count = text.unicode_len();
        let mut i: usize = 0;
        let mut current_x: usize = x;
        proof {
            assert(0 * 8 * scale == 0);
        }
        while i < count
            invariant
                0 <= i <= count,
                count == text@.len(),
                old(self).wf(),
                x + text@.len() * 8 * scale <= i32::MAX,
                y + 9 * scale <= i32::MAX,
                current_x == x + i * 8 * scale,
                painted(
                    old(self),
                    self,
                    color.0,
                    |px: int, py: int|
                        in_text_upto(text@, x as int, y as int, scale as int, i as int, px, py),
                ),
            decreases count - i,
        {
            let ch = text.get_char(i);
            let ghost canvas = *self;
            proof {
                assert((i + 1) * 8 * scale == i * 8 * scale + 8 * scale && (i + 1) * 8 * scale
                    <= text@.len() * 8 * scale) by (nonlinear_arith)
                    requires
                        0 <= i < text@.len(),
                        0 <= scale,
                ;
            }
            if ch != ' ' {
                self.draw_char_fallback(ch, current_x, y, color, scale);
            }
            proof {
                assert forall|px: int, py: int|
                    in_frame(self.spec_width(), self.spec_height(), px, py) implies
                    #[trigger] self.pixel(px, py) == (if in_text_upto(
                    text@,
                    x as int,
                    y as int,
                    scale as int,
                    i + 1,
                    px,
                    py,
                ) {
                    color.0
                } else {
                    old(self).pixel(px, py)
                }) by {
                    assert(canvas.pixel(px, py) == canvas.pixel(px, py));
                }
            }
            current_x = current_x + 8 * scale;
            i = i + 1;
        }
    }
}

} // verus!
