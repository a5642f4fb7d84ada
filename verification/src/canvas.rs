//! The RGB pixel canvas and glyph compositing.
//!
//! A canvas is a row-major RGB byte buffer with a uniform padding border.
//! Glyph samples are single-pixel cells whose alpha carries coverage; a
//! sample is composited by scaling each channel with its alpha, which
//! blends the glyph against a black backdrop.

use vstd::prelude::*;

verus! {

/// One glyph sample emitted by layout: a cell at `(x, y)` in content
/// coordinates (before padding), `w × h` samples large, whose color's
/// alpha channel carries coverage.
#[derive(Clone, Copy, Debug, PartialEq, Eq, Structural)]
pub struct GlyphDraw {
    pub x: i32,
    pub y: i32,
    pub w: u32,
    pub h: u32,
    pub r: u8,
    pub g: u8,
    pub b: u8,
    pub a: u8,
}

/// The mathematical value of a canvas: its dimensions and the RGB bytes
/// of its pixels in row-major order.
pub struct CanvasView {
    pub width: nat,
    pub height: nat,
    pub data: Seq<u8>,
}

/// An RGB pixel buffer.
pub struct Canvas {
    width: u32,
    height: u32,
    data: Vec<u8>,
}

impl View for Canvas {
    type V = CanvasView;

    closed spec fn view(&self) -> CanvasView {
        CanvasView { width: self.width as nat, height: self.height as nat, data: self.data@ }
    }
}

/// One channel of an RGB triple, by index: red, green, blue.
pub open spec fn channel(c: (u8, u8, u8), k: int) -> u8 {
    if k == 0 {
        c.0
    } else if k == 1 {
        c.1
    } else {
        c.2
    }
}

/// The bytes of a `width × height` canvas whose every pixel is `bg`.
pub open spec fn solid_data(width: int, height: int, bg: (u8, u8, u8)) -> Seq<u8> {
    Seq::new((3 * width * height) as nat, |i: int| channel(bg, i % 3))
}

/// The pixel at `(x, y)` of row-major RGB bytes of row width `w`.
pub open spec fn data_pixel(data: Seq<u8>, w: int, x: int, y: int) -> (u8, u8, u8) {
    (data[3 * (y * w + x)], data[3 * (y * w + x) + 1], data[3 * (y * w + x) + 2])
}

impl Canvas {
    /// The buffer holds exactly three bytes for each of its pixels.
    pub open spec fn wf(self) -> bool {
        self@.data.len() == 3 * self@.width * self@.height
    }

    /// A canvas of the given dimensions with every pixel set to `bg`.
    pub fn new(width: u32, height: u32, bg: (u8, u8, u8)) -> (c: Canvas)
        requires
            3 * (width as int) * (height as int) <= usize::MAX,
        ensures
            c.wf(),
            c@.width == width,
            c@.height == height,
            c@.data == solid_data(width as int, height as int, bg),
    {
        proof {
            assert((width as int) * (height as int) * 3 == 3 * (width as int) * (height as int))
                by (nonlinear_arith);
        }
        let count: usize = (width as usize) * (height as usize) * 3;
        let mut data: Vec<u8> = Vec::new();
        let mut i: usize = 0;
        while i < count
            invariant
                i <= count,
                count == 3 * (width as int) * (height as int),
                data@.len() == i,
                forall|j: int| 0 <= j < i ==> data@[j] == channel(bg, j % 3),
            decreases count - i,
        {
            let k = i % 3;
            let byte = if k == 0 {
                bg.0
            } else if k == 1 {
                bg.1
            } else {
                bg.2
            };
            data.push(byte);
            i += 1;
        }
        let c = Canvas { width, height, data };
        proof {
            assert(c@.data =~= solid_data(width as int, height as int, bg));
        }
        c
    }

    /// The canvas width in pixels.
    pub fn width(&self) -> (w: u32)
        ensures
            w == self@.width,
    {
        self.width
    }

    /// The canvas height in pixels.
    pub fn height(&self) -> (h: u32)
        ensures
            h == self@.height,
    {
        self.height
    }

    /// The raw RGB bytes, row-major.
    pub fn data(&self) -> (d: &Vec<u8>)
        ensures
            d@ == self@.data,
    {
        &self.data
    }

    /// The pixel at `(x, y)`.
    pub fn pixel(&self, x: u32, y: u32) -> (p: (u8, u8, u8))
        requires
            self.wf(),
            x < self@.width,
            y < self@.height,
        ensures
            p == data_pixel(self@.data, self@.width as int, x as int, y as int),
    {
        let n = self.data.len();
        proof {
            lemma_pixel_index_in_bounds(
                self@.width as int,
                self@.height as int,
                x as int,
                y as int,
            );
            assert(n == 3 * self@.width * self@.height);
        }
        let base: usize = ((y as usize) * (self.width as usize) + (x as usize)) * 3;
        (self.data[base], self.data[base + 1], self.data[base + 2])
    }

    /// Overwrite the pixel at `(x, y)`.
    pub(crate) fn put_pixel(&mut self, x: u32, y: u32, p: (u8, u8, u8))
        requires
            old(self).wf(),
            x < old(self)@.width,
            y < old(self)@.height,
        ensures
            final(self).wf(),
            final(self)@.width == old(self)@.width,
            final(self)@.height == old(self)@.height,
            final(self)@.data == old(self)@.data.update(
                3 * (y * old(self)@.width + x),
                p.0,
            ).update(3 * (y * old(self)@.width + x) + 1, p.1).update(
                3 * (y * old(self)@.width + x) + 2,
                p.2,
            ),
    {
        let n = self.data.len();
        proof {
            lemma_pixel_index_in_bounds(
                self@.width as int,
                self@.height as int,
                x as int,
                y as int,
            );
            assert(n == 3 * self@.width * self@.height);
        }
        let base: usize = ((y as usize) * (self.width as usize) + (x as usize)) * 3;
        self.data[base] = p.0;
        self.data[base + 1] = p.1;
        self.data[base + 2] = p.2;
    }
}

proof fn lemma_pixel_index_in_bounds(w: int, h: int, x: int, y: int)
    requires
        0 <= x < w,
        0 <= y < h,
    ensures
        0 <= 3 * (y * w + x),
        3 * (y * w + x) + 2 < 3 * w * h,
{
    assert(0 <= y * w + x && y * w + x < w * h && 3 * (y * w + x) + 2 < 3 * (w * h) && 3 * (w
        * h) == 3 * w * h) by (nonlinear_arith)
        requires
            0 <= x < w,
            0 <= y < h,
    ;
}

/// Whether a glyph sample is composited at all: zero coverage, positions
/// outside the content region, and cells other than a single sample are
/// skipped.
pub open spec fn glyph_hits(g: GlyphDraw, cw: int, ch: int) -> bool {
    &&& g.a != 0
    &&& 0 <= g.x < cw
    &&& 0 <= g.y < ch
    &&& g.w == 1
    &&& g.h == 1
}

/// One channel scaled by coverage: `c · a / 255`, the blend of the glyph
/// against a black backdrop.
pub open spec fn scale_channel(c: u8, a: u8) -> u8 {
    ((c as int) * (a as int) / 255) as u8
}

/// A glyph sample's color after alpha scaling.
pub open spec fn scaled_color(g: GlyphDraw) -> (u8, u8, u8) {
    (scale_channel(g.r, g.a), scale_channel(g.g, g.a), scale_channel(g.b, g.a))
}

/// The canvas bytes after compositing `glyphs`, in order, over a solid
/// background: content region `cw × ch`, padding `pad` on each side.
pub open spec fn composited_data(
    glyphs: Seq<GlyphDraw>,
    cw: int,
    ch: int,
    pad: int,
    bg: (u8, u8, u8),
) -> Seq<u8>
    decreases glyphs.len(),
{
    if glyphs.len() == 0 {
        solid_data(cw + 2 * pad, ch + 2 * pad, bg)
    } else {
        let g = glyphs.last();
        let rest = composited_data(glyphs.drop_last(), cw, ch, pad, bg);
        if glyph_hits(g, cw, ch) {
            let base = 3 * ((g.y + pad) * (cw + 2 * pad) + g.x + pad);
            let c = scaled_color(g);
            rest.update(base, c.0).update(base + 1, c.1).update(base + 2, c.2)
        } else {
            rest
        }
    }
}

/// The color a pixel ends with: that of the last glyph sample composited
/// onto it, or the background where none was.
pub open spec fn rendered_pixel(
    glyphs: Seq<GlyphDraw>,
    cw: int,
    ch: int,
    pad: int,
    bg: (u8, u8, u8),
    x: int,
    y: int,
) -> (u8, u8, u8)
    decreases glyphs.len(),
{
    if glyphs.len() == 0 {
        bg
    } else {
        let g = glyphs.last();
        if glyph_hits(g, cw, ch) && x == g.x + pad && y == g.y + pad {
            scaled_color(g)
        } else {
            rendered_pixel(glyphs.drop_last(), cw, ch, pad, bg, x, y)
        }
    }
}

/// The composited bytes keep the canvas size.
pub proof fn lemma_composited_len(glyphs: Seq<GlyphDraw>, cw: int, ch: int, pad: int, bg: (u8, u8, u8))
    requires
        0 <= cw,
        0 <= ch,
        0 <= pad,
    ensures
        composited_data(glyphs, cw, ch, pad, bg).len() == 3 * (cw + 2 * pad) * (ch + 2 * pad),
    decreases glyphs.len(),
{
    let w = cw + 2 * pad;
    let h = ch + 2 * pad;
    if glyphs.len() == 0 {
        assert(3 * w * h >= 0) by (nonlinear_arith)
            requires
                0 <= w,
                0 <= h,
        ;
    } else {
        lemma_composited_len(glyphs.drop_last(), cw, ch, pad, bg);
        let g = glyphs.last();
        if glyph_hits(g, cw, ch) {
            // The three updated byte indices lie inside the buffer, so the
            // updates keep its length.
            lemma_pixel_index_in_bounds(w, h, g.x + pad, g.y + pad);
        }
    }
}

proof fn lemma_row_major_injective(w: int, x1: int, y1: int, x2: int, y2: int)
    requires
        0 <= x1 < w,
        0 <= x2 < w,
        0 <= y1,
        0 <= y2,
        y1 * w + x1 == y2 * w + x2,
    ensures
        x1 == x2 && y1 == y2,
{
    assert(x1 == x2 && y1 == y2) by (nonlinear_arith)
        requires
            0 <= x1 < w,
            0 <= x2 < w,
            0 <= y1,
            0 <= y2,
            y1 * w + x1 == y2 * w + x2,
    ;
}

/// The byte-level compositing agrees pixel for pixel with `rendered_pixel`.
pub proof fn lemma_composited_pixel(
    glyphs: Seq<GlyphDraw>,
    cw: int,
    ch: int,
    pad: int,
    bg: (u8, u8, u8),
    x: int,
    y: int,
)
    requires
        0 <= cw,
        0 <= ch,
        0 <= pad,
        0 <= x < cw + 2 * pad,
        0 <= y < ch + 2 * pad,
    ensures
        data_pixel(composited_data(glyphs, cw, ch, pad, bg), cw + 2 * pad, x, y)
            == rendered_pixel(glyphs, cw, ch, pad, bg, x, y),
    decreases glyphs.len(),
{
    let w = cw + 2 * pad;
    let h = ch + 2 * pad;
    lemma_pixel_index_in_bounds(w, h, x, y);
    if glyphs.len() == 0 {
        lemma_composited_len(glyphs, cw, ch, pad, bg);
        assert((3 * (y * w + x)) % 3 == 0 && (3 * (y * w + x) + 1) % 3 == 1 && (3 * (y * w + x)
            + 2) % 3 == 2) by (nonlinear_arith);
    } else {
        let g = glyphs.last();
        lemma_composited_pixel(glyphs.drop_last(), cw, ch, pad, bg, x, y);
        lemma_composited_len(glyphs.drop_last(), cw, ch, pad, bg);
        if glyph_hits(g, cw, ch) {
            let gx = g.x + pad;
            let gy = g.y + pad;
            lemma_pixel_index_in_bounds(w, h, gx, gy);
            if x == gx && y == gy {
            } else {
                // A different pixel: its three byte indices differ from the
                // three updated ones.
                if y * w + x == gy * w + gx {
                    lemma_row_major_injective(w, x, y, gx, gy);
                }
                assert(3 * (y * w + x) != 3 * (gy * w + gx) + 1 && 3 * (y * w + x) != 3 * (gy * w
                    + gx) + 2 && 3 * (y * w + x) + 1 != 3 * (gy * w + gx) + 2 && 3 * (y * w + x)
                    + 2 != 3 * (gy * w + gx) + 1);
            }
        }
    }
}

/// Law: glyphs never intrude into the padding border, nor outside the
/// canvas: every pixel within `pad` of an edge keeps the background color.
pub proof fn lemma_padding_preserved(
    glyphs: Seq<GlyphDraw>,
    cw: int,
    ch: int,
    pad: int,
    bg: (u8, u8, u8),
    x: int,
    y: int,
)
    requires
        x < pad || x >= pad + cw || y < pad || y >= pad + ch,
    ensures
        rendered_pixel(glyphs, cw, ch, pad, bg, x, y) == bg,
    decreases glyphs.len(),
{
    if glyphs.len() > 0 {
        lemma_padding_preserved(glyphs.drop_last(), cw, ch, pad, bg, x, y);
    }
}

} // verus!
