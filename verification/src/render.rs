//! The parameter model and the rendering pipeline.
//!
//! A `Metrics` value is the normalized render descriptor: validated colors,
//! a resolved font family, a strictly positive size and a padding border.
//! Rendering fills a padded canvas with the background color and composites
//! the glyph samples the shaper produced, in order.

use crate::canvas::{
    composited_data, data_pixel, Canvas, CanvasView, GlyphDraw,
};
use crate::canvas::{lemma_composited_pixel, lemma_padding_preserved};
use crate::color::{hex_to_rgb, is_valid_hex_color, is_valid_hex_color_str, rgb_of_hex};
use vstd::prelude::*;
use vstd::string::StrSliceExecFns;

verus! {

/// A font family: one of the five generic categories, or any other name
/// preserved verbatim for the shaper.
#[derive(Debug, PartialEq, Eq)]
pub enum FontFamily {
    Serif,
    SansSerif,
    Cursive,
    Fantasy,
    Monospace,
    Name(String),
}

/// The mathematical value of a font family.
pub enum FamilyView {
    Serif,
    SansSerif,
    Cursive,
    Fantasy,
    Monospace,
    Name(Seq<char>),
}

impl View for FontFamily {
    type V = FamilyView;

    open spec fn view(&self) -> FamilyView {
        match self {
            FontFamily::Serif => FamilyView::Serif,
            FontFamily::SansSerif => FamilyView::SansSerif,
            FontFamily::Cursive => FamilyView::Cursive,
            FontFamily::Fantasy => FamilyView::Fantasy,
            FontFamily::Monospace => FamilyView::Monospace,
            FontFamily::Name(s) => FamilyView::Name(s@),
        }
    }
}

/// The family a font name resolves to: an exact, case-sensitive match of
/// one of the five reserved names, else the name itself.
pub open spec fn spec_family_of(s: Seq<char>) -> FamilyView {
    if s == "Serif"@ {
        FamilyView::Serif
    } else if s == "SansSerif"@ {
        FamilyView::SansSerif
    } else if s == "Cursive"@ {
        FamilyView::Cursive
    } else if s == "Fantasy"@ {
        FamilyView::Fantasy
    } else if s == "Monospace"@ {
        FamilyView::Monospace
    } else {
        FamilyView::Name(s)
    }
}

fn str_eq(a: &str, b: &str) -> (r: bool)
    ensures
        r == (a@ == b@),
{
    let an = a.unicode_len();
    let bn = b.unicode_len();
    if an != bn {
        return false;
    }
    let mut i: usize = 0;
    while i < an
        invariant
            i <= an,
            an == a@.len(),
            an == b@.len(),
            forall|j: int| 0 <= j < i ==> a@[j] == b@[j],
        decreases an - i,
    {
        if a.get_char(i) != b.get_char(i) {
            assert(a@[i as int] != b@[i as int]);
            return false;
        }
        i += 1;
    }
    proof {
        assert(a@ =~= b@);
    }
    true
}

/// Resolve a font name to its family.
pub fn family_of_name(font: &str) -> (f: FontFamily)
    ensures
        f@ == spec_family_of(font@),
{
    if str_eq(font, "Serif") {
        FontFamily::Serif
    } else if str_eq(font, "SansSerif") {
        FontFamily::SansSerif
    } else if str_eq(font, "Cursive") {
        FontFamily::Cursive
    } else if str_eq(font, "Fantasy") {
        FontFamily::Fantasy
    } else if str_eq(font, "Monospace") {
        FontFamily::Monospace
    } else {
        FontFamily::Name(font.to_owned())
    }
}

/// The fatal error kinds the library reports.
#[derive(Debug, Clone, Copy, PartialEq, Eq, Structural)]
pub enum RenderError {
    /// A color string does not match the hexadecimal color language.
    InvalidColor,
    /// The encoder refused the pixel buffer.
    OutputIo,
}

/// The normalized render descriptor.
#[derive(Debug, PartialEq)]
pub struct Metrics {
    /// The text to draw; line feeds separate lines.
    pub text: String,
    /// The font family handed to the shaper.
    pub font: FontFamily,
    /// Font size in hundredths of a pixel (`1800` is an 18-pixel font).
    pub size_centi: u32,
    /// Foreground color.
    pub color: (u8, u8, u8),
    /// Background color.
    pub bg_color: (u8, u8, u8),
    /// Pixels of margin added on all four sides.
    pub padding: u8,
}

impl Metrics {
    /// The descriptor invariant: a strictly positive font size.
    pub open spec fn wf(self) -> bool {
        self.size_centi > 0
    }

    /// Build a descriptor from raw user inputs.  Both colors must match
    /// the hexadecimal color language, else construction is refused.
    pub fn new(
        text: String,
        font: &String,
        size_centi: u32,
        color: &String,
        bg_color: &String,
        padding: u8,
    ) -> (r: Result<Metrics, RenderError>)
        requires
            size_centi > 0,
        ensures
            r is Ok <==> is_valid_hex_color(color@) && is_valid_hex_color(bg_color@),
            r matches Ok(m) ==> {
                &&& m.wf()
                &&& m.text@ == text@
                &&& m.font@ == spec_family_of(font@)
                &&& m.size_centi == size_centi
                &&& m.color == rgb_of_hex(color@)
                &&& m.bg_color == rgb_of_hex(bg_color@)
                &&& m.padding == padding
            },
            r matches Err(e) ==> e == RenderError::InvalidColor,
    {
        let font = family_of_name(font.as_str());
        if !is_valid_hex_color_str(color.as_str()) || !is_valid_hex_color_str(
            bg_color.as_str(),
        ) {
            return Err(RenderError::InvalidColor);
        }
        let color = hex_to_rgb(color.as_str());
        let bg_color = hex_to_rgb(bg_color.as_str());
        Ok(Metrics { text, font, size_centi, color, bg_color, padding })
    }
}

/// The number of line feeds in `s`.
pub open spec fn newline_count(s: Seq<char>) -> nat
    decreases s.len(),
{
    if s.len() == 0 {
        0
    } else {
        newline_count(s.drop_last()) + if s.last() == '\n' {
            1nat
        } else {
            0nat
        }
    }
}

/// The number of lines of a text: its line feeds plus one.
pub open spec fn spec_line_count(s: Seq<char>) -> nat {
    newline_count(s) + 1
}

/// The characters after the last line feed.
pub open spec fn last_line_len(s: Seq<char>) -> nat
    decreases s.len(),
{
    if s.len() == 0 {
        0
    } else if s.last() == '\n' {
        0
    } else {
        last_line_len(s.drop_last()) + 1
    }
}

/// The length in characters of the longest line: the maximum over the
/// segments between line feeds, the line feeds themselves not counted.
pub open spec fn spec_max_line_chars(s: Seq<char>) -> nat
    decreases s.len(),
{
    if s.len() == 0 {
        0
    } else {
        let m = spec_max_line_chars(s.drop_last());
        let l = last_line_len(s);
        if l > m {
            l
        } else {
            m
        }
    }
}

/// Count the text's lines and measure its longest line, in one pass.
pub fn line_metrics(text: &str) -> (r: (usize, usize))
    requires
        text@.len() < usize::MAX,
    ensures
        r.0 == spec_line_count(text@),
        r.1 == spec_max_line_chars(text@),
{
    let n = text.unicode_len();
    let mut newlines: usize = 0;
    let mut cur: usize = 0;
    let mut maxl: usize = 0;
    let mut i: usize = 0;
    while i < n
        invariant
            i <= n,
            n == text@.len(),
            n < usize::MAX,
            newlines == newline_count(text@.subrange(0, i as int)),
            cur == last_line_len(text@.subrange(0, i as int)),
            maxl == spec_max_line_chars(text@.subrange(0, i as int)),
            newlines <= i,
            cur <= i,
            maxl <= i,
        decreases n - i,
    {
        let c = text.get_char(i);
        proof {
            assert(text@.subrange(0, i + 1).drop_last() =~= text@.subrange(0, i as int));
            assert(text@.subrange(0, i + 1).last() == text@[i as int]);
        }
        if c == '\n' {
            newlines += 1;
            cur = 0;
        } else {
            cur += 1;
            if cur > maxl {
                maxl = cur;
            }
        }
        i += 1;
    }
    proof {
        assert(text@.subrange(0, n as int) =~= text@);
    }
    (newlines + 1, maxl)
}

/// Content height in pixels: `⌈size · 1.2 · line_count⌉`, with the size
/// given in hundredths of a pixel.
pub open spec fn spec_content_height(size_centi: int, lines: int) -> int {
    (size_centi * 12 * lines + 999) / 1000
}

/// Compute the content height in pixels.
pub fn content_height(size_centi: u32, lines: usize) -> (h: u32)
    requires
        0 <= spec_content_height(size_centi as int, lines as int) <= u32::MAX,
    ensures
        h == spec_content_height(size_centi as int, lines as int),
{
    proof {
        assert((size_centi as int) * 12 * (lines as int) >= 0) by (nonlinear_arith)
            requires
                size_centi >= 0,
                lines >= 0,
        ;
        let p = (size_centi as int) * 12 * (lines as int);
        assert(p <= 1000 * (u32::MAX as int)) by {
            if p > 1000 * (u32::MAX as int) {
                assert((p + 999) / 1000 > u32::MAX) by (nonlinear_arith)
                    requires
                        p > 1000 * (u32::MAX as int),
                ;
            }
        }
    }
    let p: u64 = (size_centi as u64) * 12 * (lines as u64);
    let h: u64 = (p + 999) / 1000;
    h as u32
}

/// Rendering a descriptor and a list of glyph samples to an RGB canvas.
pub trait FontRenderHandler {
    /// When rendering is meaningful: the descriptor is well formed and the
    /// canvas dimensions and buffer fit the machine.
    spec fn render_requires(&self, content_width: u32, glyphs: Seq<GlyphDraw>) -> bool;

    /// The exact canvas that rendering produces.
    spec fn rendered_view(&self, content_width: u32, glyphs: Seq<GlyphDraw>) -> CanvasView;

    /// Rasterize: a canvas of the content dimensions plus the padding
    /// border, filled with the background and composited with each glyph
    /// sample in order.
    fn render(&self, content_width: u32, glyphs: &Vec<GlyphDraw>) -> (c: Canvas)
        requires
            self.render_requires(content_width, glyphs@),
        ensures
            c.wf(),
            c@ == self.rendered_view(content_width, glyphs@),
    ;
}

impl Metrics {
    /// The content height the descriptor's text and size imply.
    pub open spec fn spec_ch(&self) -> int {
        spec_content_height(self.size_centi as int, spec_line_count(self.text@) as int)
    }
}

fn scale8(c: u8, a: u8) -> (r: u8)
    ensures
        r == crate::canvas::scale_channel(c, a),
{
    proof {
        assert((c as int) * (a as int) <= 255 * 255 && (c as int) * (a as int) >= 0)
            by (nonlinear_arith)
            requires
                c <= 255,
                a <= 255,
        ;
    }
    (((c as u32) * (a as u32)) / 255) as u8
}

impl FontRenderHandler for Metrics {
    open spec fn render_requires(&self, content_width: u32, glyphs: Seq<GlyphDraw>) -> bool {
        &&& self.wf()
        &&& self.text@.len() < usize::MAX
        &&& self.spec_ch() + 2 * (self.padding as int) <= u32::MAX
        &&& content_width + 2 * (self.padding as int) <= u32::MAX
        &&& 3 * (content_width + 2 * (self.padding as int)) * (self.spec_ch() + 2 * (
        self.padding as int)) <= usize::MAX
    }

    open spec fn rendered_view(&self, content_width: u32, glyphs: Seq<GlyphDraw>) -> CanvasView {
        CanvasView {
            width: (content_width + 2 * (self.padding as int)) as nat,
            height: (self.spec_ch() + 2 * (self.padding as int)) as nat,
            data: composited_data(
                glyphs,
                content_width as int,
                self.spec_ch(),
                self.padding as int,
                self.bg_color,
            ),
        }
    }

    fn render(&self, content_width: u32, glyphs: &Vec<GlyphDraw>) -> (c: Canvas) {
        let lm = line_metrics(self.text.as_str());
        let ch = content_height(self.size_centi, lm.0);
        let pad = self.padding as u32;
        let w = content_width + 2 * pad;
        let h = ch + 2 * pad;
        let mut canvas = Canvas::new(w, h, self.bg_color);
        let ghost cw_i = content_width as int;
        let ghost ch_i = self.spec_ch();
        let ghost pad_i = self.padding as int;
        let mut k: usize = 0;
        while k < glyphs.len()
            invariant
                k <= glyphs@.len(),
                canvas.wf(),
                canvas@.width == w,
                canvas@.height == h,
                canvas@.data == composited_data(
                    glyphs@.subrange(0, k as int),
                    cw_i,
                    ch_i,
                    pad_i,
                    self.bg_color,
                ),
                cw_i == content_width as int,
                ch_i == ch as int,
                pad_i == pad as int,
                w == cw_i + 2 * pad_i,
                h == ch_i + 2 * pad_i,
            decreases glyphs@.len() - k,
        {
            let g = glyphs[k];
            proof {
                assert(glyphs@.subrange(0, k + 1).drop_last() =~= glyphs@.subrange(0, k as int));
                assert(glyphs@.subrange(0, k + 1).last() == glyphs@[k as int]);
            }
            if g.a != 0 && g.x >= 0 && (g.x as i64) < (content_width as i64) && g.y >= 0 && (
            g.y as i64) < (ch as i64) && g.w == 1 && g.h == 1 {
                let px = (g.x as u32) + pad;
                let py = (g.y as u32) + pad;
                canvas.put_pixel(px, py, (scale8(g.r, g.a), scale8(g.g, g.a), scale8(g.b, g.a)));
            }
            k += 1;
        }
        proof {
            assert(glyphs@.subrange(0, glyphs@.len() as int) =~= glyphs@);
        }
        canvas
    }
}

/// Law: rendering is deterministic.  One descriptor, content width and
/// glyph sample list admit exactly one canvas value, so two renderings of
/// identical inputs are byte-identical.
pub proof fn lemma_render_deterministic(
    m: Metrics,
    content_width: u32,
    glyphs: Seq<GlyphDraw>,
    c1: Canvas,
    c2: Canvas,
)
    requires
        c1@ == m.rendered_view(content_width, glyphs),
        c2@ == m.rendered_view(content_width, glyphs),
    ensures
        c1@ == c2@,
{
}

/// Law: the rendered canvas is `content_width + 2·padding` pixels wide —
/// at least `2·padding + 1` when the measured content width is at least
/// one — and exactly `⌈size · 1.2 · line_count⌉ + 2·padding` pixels high.
pub proof fn lemma_canvas_sizing(m: Metrics, content_width: u32, glyphs: Seq<GlyphDraw>)
    requires
        m.render_requires(content_width, glyphs),
        content_width >= 1,
    ensures
        m.rendered_view(content_width, glyphs).width >= 2 * (m.padding as int) + 1,
        m.rendered_view(content_width, glyphs).height == m.spec_ch() + 2 * (m.padding as int),
{
}

/// Law: with no glyph samples — in particular, for an empty text — every
/// pixel of the rendered canvas is exactly the background color.
pub proof fn lemma_background_dominance(m: Metrics, content_width: u32, x: int, y: int)
    requires
        m.render_requires(content_width, Seq::<GlyphDraw>::empty()),
        0 <= x < m.rendered_view(content_width, Seq::<GlyphDraw>::empty()).width,
        0 <= y < m.rendered_view(content_width, Seq::<GlyphDraw>::empty()).height,
    ensures
        data_pixel(
            m.rendered_view(content_width, Seq::<GlyphDraw>::empty()).data,
            content_width + 2 * (m.padding as int),
            x,
            y,
        ) == m.bg_color,
{
    lemma_composited_pixel(
        Seq::<GlyphDraw>::empty(),
        content_width as int,
        m.spec_ch(),
        m.padding as int,
        m.bg_color,
        x,
        y,
    );
}

/// Law: text never intrudes into the margin — every pixel within
/// `padding` of an edge of the rendered canvas is exactly the background
/// color, whatever the glyph samples.
pub proof fn lemma_padding_correctness(
    m: Metrics,
    content_width: u32,
    glyphs: Seq<GlyphDraw>,
    x: int,
    y: int,
)
    requires
        m.render_requires(content_width, glyphs),
        0 <= x < m.rendered_view(content_width, glyphs).width,
        0 <= y < m.rendered_view(content_width, glyphs).height,
        x < m.padding || x >= m.padding + content_width || y < m.padding || y >= m.padding
            + m.spec_ch(),
    ensures
        data_pixel(
            m.rendered_view(content_width, glyphs).data,
            content_width + 2 * (m.padding as int),
            x,
            y,
        ) == m.bg_color,
{
    lemma_composited_pixel(
        glyphs,
        content_width as int,
        m.spec_ch(),
        m.padding as int,
        m.bg_color,
        x,
        y,
    );
    lemma_padding_preserved(
        glyphs,
        content_width as int,
        m.spec_ch(),
        m.padding as int,
        m.bg_color,
        x,
        y,
    );
}

/// Law: one full-coverage white glyph sample on a black, unpadded canvas
/// lights exactly its own pixel.  That pixel ends with every channel at
/// 255, and every other pixel — the outermost rows and columns among them
/// — stays black.
pub proof fn lemma_single_sample_lit(
    m: Metrics,
    content_width: u32,
    g: GlyphDraw,
    x: int,
    y: int,
)
    requires
        m.render_requires(content_width, seq![g]),
        m.bg_color == ((0u8, 0u8, 0u8)),
        m.padding == 0,
        g.w == 1,
        g.h == 1,
        g.a == 255,
        g.r == 255,
        g.g == 255,
        g.b == 255,
        0 <= g.x < content_width,
        0 <= g.y < m.spec_ch(),
        0 <= x < content_width,
        0 <= y < m.spec_ch(),
    ensures
        data_pixel(m.rendered_view(content_width, seq![g]).data, content_width as int, x, y) == (
        if x == g.x && y == g.y {
            ((255u8, 255u8, 255u8))
        } else {
            ((0u8, 0u8, 0u8))
        }),
{
    let cw = content_width as int;
    let ch = m.spec_ch();
    let s = seq![g];
    lemma_composited_pixel(s, cw, ch, 0, m.bg_color, x, y);
    assert(s.last() == g);
    assert(s.drop_last() =~= Seq::<GlyphDraw>::empty());
    assert(crate::canvas::glyph_hits(g, cw, ch));
    assert(crate::canvas::scale_channel(255u8, 255u8) == 255u8);
    if x == g.x && y == g.y {
        assert(crate::canvas::rendered_pixel(s, cw, ch, 0, m.bg_color, x, y)
            == crate::canvas::scaled_color(g));
    } else {
        assert(crate::canvas::rendered_pixel(s, cw, ch, 0, m.bg_color, x, y)
            == crate::canvas::rendered_pixel(
            Seq::<GlyphDraw>::empty(),
            cw,
            ch,
            0,
            m.bg_color,
            x,
            y,
        ));
    }
}

} // verus!
