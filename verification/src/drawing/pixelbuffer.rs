//! The software rasterizer: a dense pixel buffer that paints a shape by
//! scanning the shape's bounding box clipped to the frame, querying the
//! shape at every pixel in range, and painting where the fragment's
//! distance passes the mode's half-pixel test.

use vstd::prelude::*;
use crate::drawing::color::Color;
use crate::drawing::shapes::shape::Shape;
use crate::math::fixed::HALF;
use crate::math::rect::{inside, intersect_s, rect, Rect, SRect};
use crate::math::vector::{vec2, SVec2, Vec2};

verus! {

/// Mathematical image of a pixel buffer: the pixels as a sequence, row by
/// row, and the two dimensions.
pub struct SPixelBuffer {
    pub pixels: Seq<Color>,
    pub width: int,
    pub height: int,
}

/// How `draw` decides whether a pixel is painted.
#[derive(Debug, Clone, Copy, PartialEq, Eq, Structural)]
pub enum DrawMode {
    /// Paint where the distance is below half a pixel: the filled shape.
    Filled,
    /// Paint where the distance is within half a pixel of zero: the
    /// boundary band.
    Stroke,
}

/// A dense pixel canvas addressed as `index = x + y * width`.
#[derive(Debug, Clone)]
pub struct PixelBuffer {
    buffer: Vec<Color>,
    width: u32,
    height: u32,
}

impl View for PixelBuffer {
    type V = SPixelBuffer;

    closed spec fn view(&self) -> SPixelBuffer {
        SPixelBuffer {
            pixels: self.buffer@,
            width: self.width as int,
            height: self.height as int,
        }
    }
}

/// The buffer holds exactly one color per coordinate pair and both
/// dimensions fit the pixel coordinate type.
pub open spec fn pb_wf_s(b: SPixelBuffer) -> bool {
    &&& b.pixels.len() == b.width * b.height
    &&& 0 <= b.width <= i32::MAX
    &&& 0 <= b.height <= i32::MAX
    &&& b.width * b.height <= u32::MAX
}

/// The color stored for the pixel at `(x, y)`.
pub open spec fn pix_at(b: SPixelBuffer, x: int, y: int) -> Color {
    b.pixels[x + y * b.width]
}

/// The frame rectangle: every addressable pixel coordinate.
pub open spec fn frame_s(b: SPixelBuffer) -> SRect {
    SRect { tl: SVec2 { x: 0, y: 0 }, br: SVec2 { x: b.width - 1, y: b.height - 1 } }
}

/// Whether the mode paints a fragment at this distance.
pub open spec fn mode_hits(mode: DrawMode, dist: int) -> bool {
    match mode {
        DrawMode::Filled => dist < HALF,
        DrawMode::Stroke => -HALF <= dist < HALF,
    }
}

/// Whether `draw` paints the pixel at `(x, y)`: the pixel lies in the
/// shape's bounding box clipped to the frame, and the shape's distance
/// there passes the mode's test.
pub open spec fn paints<S: Shape>(s: S, b: SPixelBuffer, mode: DrawMode, x: int, y: int) -> bool {
    &&& inside(SVec2 { x, y }, intersect_s(s.s_bbox(), frame_s(b)))
    &&& mode_hits(mode, s.s_frag(SVec2 { x, y }).dist)
}

/// A valid coordinate pair indexes within the buffer.
proof fn lemma_pix_bounds(w: int, h: int, x: int, y: int)
    requires
        0 <= x < w,
        0 <= y < h,
    ensures
        0 <= x + y * w < w * h,
{
    assert(0 <= x + y * w < w * h) by (nonlinear_arith)
        requires
            0 <= x < w,
            0 <= y < h,
    ;
}

/// Distinct coordinate pairs index distinct buffer cells.
proof fn lemma_pix_index_inj(w: int, x1: int, y1: int, x2: int, y2: int)
    requires
        0 <= x1 < w,
        0 <= x2 < w,
        x1 + y1 * w == x2 + y2 * w,
    ensures
        x1 == x2 && y1 == y2,
{
    assert(x1 == x2 && y1 == y2) by (nonlinear_arith)
        requires
            0 <= x1 < w,
            0 <= x2 < w,
            x1 + y1 * w == x2 + y2 * w,
    ;
}

impl PixelBuffer {
    /// A canvas of the given dimensions, cleared to black.
    pub fn new(width: u32, height: u32) -> (r: Self)
        requires
            width <= i32::MAX,
            height <= i32::MAX,
            width * height <= u32::MAX,
        ensures
            pb_wf_s(r@),
            r@.width == width,
            r@.height == height,
            forall|x: int, y: int|
                0 <= x < width && 0 <= y < height ==> #[trigger] pix_at(r@, x, y) == (Color {
                    r: 0u8,
                    g: 0u8,
                    b: 0u8,
                    a: 255u8,
                }),
    {
        proof {
            assert((width * height) as int == (width as int) * (height as int))
                by (nonlinear_arith);
        }
        let n = (width as usize) * (height as usize);
        let buffer = vec![Color::black(); n];
        let r = Self { buffer, width, height };
        proof {
            assert forall|x: int, y: int| 0 <= x < width && 0 <= y < height implies #[trigger]
                pix_at(r@, x, y) == (Color { r: 0u8, g: 0u8, b: 0u8, a: 255u8 }) by {
                lemma_pix_bounds(width as int, height as int, x, y);
            }
        }
        r
    }

    /// The canvas width in pixels.
    pub fn width(&self) -> (r: u32)
        ensures
            r == self@.width,
    {
        self.width
    }

    /// The canvas height in pixels.
    pub fn height(&self) -> (r: u32)
        ensures
            r == self@.height,
    {
        self.height
    }

    /// Gives the canvas new dimensions; pixels that survive keep their
    /// colors by buffer position, new pixels are black.
    pub fn resize(&mut self, width: u32, height: u32)
        requires
            width <= i32::MAX,
            height <= i32::MAX,
            width * height <= u32::MAX,
        ensures
            pb_wf_s(final(self)@),
            final(self)@.width == width,
            final(self)@.height == height,
            forall|i: int|
                0 <= i < width * height ==> #[trigger] final(self)@.pixels[i]
                    == if i < old(self)@.pixels.len() {
                    old(self)@.pixels[i]
                } else {
                    Color { r: 0u8, g: 0u8, b: 0u8, a: 255u8 }
                },
    {
        proof {
            assert((width * height) as int == (width as int) * (height as int))
                by (nonlinear_arith);
        }
        let n = (width as usize) * (height as usize);
        self.buffer.resize(n, Color::black());
        self.width = width;
        self.height = height;
    }

    /// Paints every pixel in the given color.
    pub fn clear(&mut self, color: Color)
        requires
            pb_wf_s(old(self)@),
        ensures
            pb_wf_s(final(self)@),
            final(self)@.width == old(self)@.width,
            final(self)@.height == old(self)@.height,
            forall|i: int|
                0 <= i < final(self)@.pixels.len() ==> #[trigger] final(self)@.pixels[i] == color,
    {
        let n = self.buffer.len();
        let mut i: usize = 0;
        while i < n
            invariant
                n == self.buffer.len(),
                i <= n,
                self.width == old(self).width,
                self.height == old(self).height,
                forall|j: int| 0 <= j < i ==> #[trigger] self.buffer@[j] == color,
            decreases n - i,
        {
            self.buffer.set(i, color);
            i = i + 1;
        }
    }

    /// Stores one color at one coordinate pair.
    pub fn put_pixel(&mut self, x: u32, y: u32, color: Color)
        requires
            pb_wf_s(old(self)@),
            x < old(self)@.width,
            y < old(self)@.height,
        ensures
            pb_wf_s(final(self)@),
            final(self)@.width == old(self)@.width,
            final(self)@.height == old(self)@.height,
            final(self)@.pixels == old(self)@.pixels.update(x + y * old(self)@.width, color),
    {
        proof {
            let w = self@.width;
            let h = self@.height;
            lemma_pix_bounds(w, h, x as int, y as int);
            assert((y * self.width) as int == (y as int) * w) by (nonlinear_arith)
                requires
                    y < h,
                    w * h <= u32::MAX,
                    w == self.width,
                    0 <= w,
                    0 <= y,
            ;
        }
        let idx = x + y * self.width;
        self.buffer.set(idx as usize, color);
    }

    /// Reads the color at one coordinate pair.
    pub fn get_pixel(&self, x: u32, y: u32) -> (r: Color)
        requires
            pb_wf_s(self@),
            x < self@.width,
            y < self@.height,
        ensures
            r == pix_at(self@, x as int, y as int),
    {
        proof {
            lemma_pix_bounds(self@.width, self@.height, x as int, y as int);
            assert((y * self.width) as int == (y as int) * (self@.width)) by (nonlinear_arith)
                requires
                    y < self@.height,
                    pb_wf_s(self@),
            ;
        }
        let idx = x + y * self.width;
        self.buffer[idx as usize]
    }

    /// The rectangle of all addressable pixel coordinates.
    pub fn frame_rect(&self) -> (r: Rect<i32>)
        requires
            pb_wf_s(self@),
        ensures
            r@ == frame_s(self@),
    {
        rect(vec2(0, 0), vec2(self.width as i32 - 1, self.height as i32 - 1))
    }

    /// Draws a shape: every pixel of the shape's bounding box clipped to
    /// the frame whose fragment passes the mode's half-pixel test takes
    /// the fragment's color; every other pixel keeps its color.
    pub fn draw<S: Shape>(&mut self, shape: &S, mode: DrawMode)
        requires
            pb_wf_s(old(self)@),
            shape.wf(),
        ensures
            pb_wf_s(final(self)@),
            final(self)@.width == old(self)@.width,
            final(self)@.height == old(self)@.height,
            forall|xi: int, yi: int|
                0 <= xi < final(self)@.width && 0 <= yi < final(self)@.height ==> #[trigger]
                    pix_at(final(self)@, xi, yi)
                    == if paints(*shape, old(self)@, mode, xi, yi) {
                    shape.s_frag(SVec2 { x: xi, y: yi }).color
                } else {
                    pix_at(old(self)@, xi, yi)
                },
    {
        let bb = shape.bounding_box();
        let fr = self.frame_rect();
        let clip = bb.intersection(fr);
        let ghost clip_s = intersect_s(shape.s_bbox(), frame_s(old(self)@));
        proof {
            assert(clip@ == clip_s);
        }
        let tlx = clip.top_left.x;
        let tly = clip.top_left.y;
        let brx = clip.bot_right.x;
        let bry = clip.bot_right.y;
        if tlx <= brx && tly <= bry {
            let mut x = tlx;
            while x <= brx
                invariant
                    pb_wf_s(self@),
                    self@.width == old(self)@.width,
                    self@.height == old(self)@.height,
                    shape.wf(),
                    clip_s == intersect_s(shape.s_bbox(), frame_s(old(self)@)),
                    0 <= tlx <= x <= brx + 1,
                    brx < self@.width,
                    0 <= tly <= bry < self@.height,
                    tlx == clip_s.tl.x && tly == clip_s.tl.y,
                    brx == clip_s.br.x && bry == clip_s.br.y,
                    forall|xi: int, yi: int|
                        0 <= xi < self@.width && 0 <= yi < self@.height ==> #[trigger] pix_at(
                            self@,
                            xi,
                            yi,
                        ) == if xi < x && paints(*shape, old(self)@, mode, xi, yi) {
                            shape.s_frag(SVec2 { x: xi, y: yi }).color
                        } else {
                            pix_at(old(self)@, xi, yi)
                        },
                decreases brx + 1 - x,
            {
                let mut y = tly;
                while y <= bry
                    invariant
                        pb_wf_s(self@),
                        self@.width == old(self)@.width,
                        self@.height == old(self)@.height,
                        shape.wf(),
                        clip_s == intersect_s(shape.s_bbox(), frame_s(old(self)@)),
                        0 <= tlx <= x <= brx,
                        brx < self@.width,
                        0 <= tly <= y <= bry + 1,
                        bry < self@.height,
                        tlx == clip_s.tl.x && tly == clip_s.tl.y,
                        brx == clip_s.br.x && bry == clip_s.br.y,
                        forall|xi: int, yi: int|
                            0 <= xi < self@.width && 0 <= yi < self@.height ==> #[trigger] pix_at(
                                self@,
                                xi,
                                yi,
                            ) == if (xi < x || (xi == x && yi < y)) && paints(
                                *shape,
                                old(self)@,
                                mode,
                                xi,
                                yi,
                            ) {
                                shape.s_frag(SVec2 { x: xi, y: yi }).color
                            } else {
                                pix_at(old(self)@, xi, yi)
                            },
                    decreases bry + 1 - y,
                {
                    let ghost before = self@;
                    let f = shape.frag(vec2(x, y));
                    let hit = match mode {
                        DrawMode::Filled => f.dist < HALF,
                        DrawMode::Stroke => -HALF <= f.dist && f.dist < HALF,
                    };
                    proof {
                        assert(hit == mode_hits(mode, shape.s_frag(SVec2 { x: x as int, y: y as int }).dist));
                        assert(inside(SVec2 { x: x as int, y: y as int }, clip_s));
                    }
                    if hit {
                        self.put_pixel(x as u32, y as u32, f.color);
                    }
                    proof {
                        let w = self@.width;
                        let h = self@.height;
                        assert forall|xi: int, yi: int| 0 <= xi < w && 0 <= yi < h implies
                            #[trigger] pix_at(self@, xi, yi) == if (xi < x || (xi == x && yi < y
                            + 1)) && paints(*shape, old(self)@, mode, xi, yi) {
                            shape.s_frag(SVec2 { x: xi, y: yi }).color
                        } else {
                            pix_at(old(self)@, xi, yi)
                        } by {
                            lemma_pix_bounds(w, h, xi, yi);
                            lemma_pix_bounds(w, h, x as int, y as int);
                            assert(pix_at(before, xi, yi) == if (xi < x || (xi == x && yi < y))
                                && paints(*shape, old(self)@, mode, xi, yi) {
                                shape.s_frag(SVec2 { x: xi, y: yi }).color
                            } else {
                                pix_at(old(self)@, xi, yi)
                            });
                            if hit {
                                assert(self@.pixels == before.pixels.update(
                                    x + y * w,
                                    f.color,
                                ));
                                if xi + yi * w == x + y * w {
                                    lemma_pix_index_inj(w, xi, yi, x as int, y as int);
                                    assert(xi == x && yi == y);
                                } else {
                                    assert(pix_at(self@, xi, yi) == pix_at(before, xi, yi));
                                }
                            } else {
                                assert(self@ == before);
                            }
                        }
                    }
                    y = y + 1;
                }
                x = x + 1;
            }
        }
    }

    /// Draws a shape filled, the common case of painting.
    pub fn draw_shape<S: Shape>(&mut self, shape: S)
        requires
            pb_wf_s(old(self)@),
            shape.wf(),
        ensures
            pb_wf_s(final(self)@),
            final(self)@.width == old(self)@.width,
            final(self)@.height == old(self)@.height,
            forall|xi: int, yi: int|
                0 <= xi < final(self)@.width && 0 <= yi < final(self)@.height ==> #[trigger]
                    pix_at(final(self)@, xi, yi)
                    == if paints(shape, old(self)@, DrawMode::Filled, xi, yi) {
                    shape.s_frag(SVec2 { x: xi, y: yi }).color
                } else {
                    pix_at(old(self)@, xi, yi)
                },
    {
        self.draw(&shape, DrawMode::Filled)
    }

    /// Whether a fragment of the shape would be painted, used by callers
    /// for hit testing against the same half-pixel threshold as `draw`.
    pub fn covers_pixel<S: Shape>(&self, shape: &S, x: u32, y: u32, mode: DrawMode) -> (r: bool)
        requires
            pb_wf_s(self@),
            shape.wf(),
            x < self@.width,
            y < self@.height,
        ensures
            r == paints(*shape, self@, mode, x as int, y as int),
    {
        let bb = shape.bounding_box();
        let fr = self.frame_rect();
        let clip = bb.intersection(fr);
        let xi = x as i32;
        let yi = y as i32;
        if clip.top_left.x <= xi && xi <= clip.bot_right.x && clip.top_left.y <= yi && yi
            <= clip.bot_right.y {
            let f = shape.frag(vec2(xi, yi));
            match mode {
                DrawMode::Filled => f.dist < HALF,
                DrawMode::Stroke => -HALF <= f.dist && f.dist < HALF,
            }
        } else {
            false
        }
    }
}

} // verus!
