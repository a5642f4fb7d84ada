use jinglebell::canvas::{Canvas, GlyphDraw};
use jinglebell::png::to_png;
use jinglebell::render::{
    content_height, family_of_name, line_metrics, FontFamily, FontRenderHandler, Metrics,
    RenderError,
};

fn metrics(
    text: &str,
    font: &str,
    size_centi: u32,
    color: &str,
    bg_color: &str,
    padding: u8,
) -> Metrics {
    Metrics::new(
        text.to_string(),
        &font.to_string(),
        size_centi,
        &color.to_string(),
        &bg_color.to_string(),
        padding,
    )
    .unwrap()
}

fn glyph(x: i32, y: i32, w: u32, h: u32, rgba: (u8, u8, u8, u8)) -> GlyphDraw {
    GlyphDraw { x, y, w, h, r: rgba.0, g: rgba.1, b: rgba.2, a: rgba.3 }
}

#[test]
fn new_metrics_font() {
    let cases = [
        ("Serif", FontFamily::Serif),
        ("SansSerif", FontFamily::SansSerif),
        ("Cursive", FontFamily::Cursive),
        ("Fantasy", FontFamily::Fantasy),
        ("Monospace", FontFamily::Monospace),
        ("Cascadia Mono", FontFamily::Name("Cascadia Mono".to_string())),
    ];

    for c in cases {
        assert_eq!(
            Metrics {
                text: "".to_string(),
                font: c.1,
                size_centi: 1600,
                color: (255, 255, 255),
                bg_color: (0, 0, 0),
                padding: 8
            },
            Metrics::new(
                "".to_string(),
                &c.0.to_string(),
                1600,
                &"#FFF".to_string(),
                &"#000".to_string(),
                8,
            )
            .unwrap()
        );
    }
}

#[test]
fn family_of_name_reserved_and_named() {
    assert_eq!(FontFamily::Serif, family_of_name("Serif"));
    assert_eq!(FontFamily::SansSerif, family_of_name("SansSerif"));
    assert_eq!(FontFamily::Cursive, family_of_name("Cursive"));
    assert_eq!(FontFamily::Fantasy, family_of_name("Fantasy"));
    assert_eq!(FontFamily::Monospace, family_of_name("Monospace"));
    assert_eq!(
        FontFamily::Name("Cascadia Mono".to_string()),
        family_of_name("Cascadia Mono")
    );
    assert_eq!(FontFamily::Name("serif".to_string()), family_of_name("serif"));
}

#[test]
fn new_metrics_invaild_color_short() {
    let r = Metrics::new(
        "".to_string(),
        &"Monospace".to_string(),
        1600,
        &"#0".to_string(),
        &"#000".to_string(),
        8,
    );
    assert_eq!(Err(RenderError::InvalidColor), r);
}

#[test]
fn new_metrics_invaild_color_miss_hash() {
    let r = Metrics::new(
        "".to_string(),
        &"Monospace".to_string(),
        1600,
        &"000".to_string(),
        &"#000".to_string(),
        8,
    );
    assert_eq!(Err(RenderError::InvalidColor), r);
}

#[test]
fn new_metrics_invaild_color_char_range() {
    let r = Metrics::new(
        "".to_string(),
        &"Monospace".to_string(),
        1600,
        &"#qw12!@".to_string(),
        &"#000".to_string(),
        8,
    );
    assert_eq!(Err(RenderError::InvalidColor), r);
}

#[test]
fn new_metrics_invaild_color_length() {
    let r = Metrics::new(
        "".to_string(),
        &"Monospace".to_string(),
        1600,
        &"#ffffff99".to_string(),
        &"#000".to_string(),
        8,
    );
    assert_eq!(Err(RenderError::InvalidColor), r);
}

#[test]
fn new_metrics_invaild_bgcolor_short() {
    let r = Metrics::new(
        "".to_string(),
        &"Monospace".to_string(),
        1600,
        &"#000".to_string(),
        &"#0".to_string(),
        8,
    );
    assert_eq!(Err(RenderError::InvalidColor), r);
}

#[test]
fn new_metrics_invaild_bgcolor_miss_hash() {
    let r = Metrics::new(
        "".to_string(),
        &"Monospace".to_string(),
        1600,
        &"#000".to_string(),
        &"000".to_string(),
        8,
    );
    assert_eq!(Err(RenderError::InvalidColor), r);
}

#[test]
fn new_metrics_invaild_bgcolor_char_range() {
    let r = Metrics::new(
        "".to_string(),
        &"Monospace".to_string(),
        1600,
        &"#000".to_string(),
        &"#qw12!@".to_string(),
        8,
    );
    assert_eq!(Err(RenderError::InvalidColor), r);
}

#[test]
fn new_metrics_invaild_bgcolor_length() {
    let r = Metrics::new(
        "".to_string(),
        &"Monospace".to_string(),
        1600,
        &"#000".to_string(),
        &"#ffffff99".to_string(),
        8,
    );
    assert_eq!(Err(RenderError::InvalidColor), r);
}

#[test]
fn line_metrics_counts_lines_and_longest() {
    assert_eq!((1, 0), line_metrics(""));
    assert_eq!((1, 1), line_metrics("A"));
    assert_eq!((2, 5), line_metrics("hi\nworld"));
    assert_eq!((3, 4), line_metrics("a\nbbbb\ncc"));
    assert_eq!((2, 2), line_metrics("ab\n"));
}

#[test]
fn content_height_is_ceil_of_line_height_times_lines() {
    assert_eq!(22, content_height(1800, 1));
    assert_eq!(44, content_height(1800, 2));
    assert_eq!(20, content_height(1600, 1));
    assert_eq!(1, content_height(1, 1));
}

#[test]
fn s1_empty_text_all_background() {
    let m = metrics("", "Monospace", 1800, "#cdd6f4", "#1e1e2e", 8);
    let c = m.render(0, &vec![]);
    assert_eq!(16, c.width());
    assert_eq!(38, c.height());
    for y in 0..c.height() {
        for x in 0..c.width() {
            assert_eq!((0x1e, 0x1e, 0x2e), c.pixel(x, y));
        }
    }
}

#[test]
fn s1_png_decodes_to_same_pixels() {
    let m = metrics("", "Monospace", 1800, "#cdd6f4", "#1e1e2e", 8);
    let c = m.render(0, &vec![]);
    let bytes = to_png(&c).unwrap();
    let img = image::load_from_memory(&bytes).unwrap().to_rgb8();
    assert_eq!(16, img.width());
    assert_eq!(38, img.height());
    for y in 0..img.height() {
        for x in 0..img.width() {
            assert_eq!([0x1e, 0x1e, 0x2e], img.get_pixel(x, y).0);
        }
    }
}

#[test]
fn s2_single_glyph_lights_top_left() {
    let m = metrics("A", "Monospace", 1800, "#ffffff", "#000000", 0);
    let glyphs = vec![glyph(0, 0, 1, 1, (255, 255, 255, 255))];
    let c = m.render(9, &glyphs);
    assert_eq!(9, c.width());
    assert_eq!(22, c.height());
    let (r, g, b) = c.pixel(0, 0);
    assert!(r > 0 && g > 0 && b > 0);
    assert_eq!((0, 0, 0), c.pixel(8, 21));
}

#[test]
fn alpha_scales_channels() {
    let m = metrics("A", "Monospace", 1800, "#ffffff", "#000000", 0);
    let glyphs = vec![glyph(0, 0, 1, 1, (255, 200, 100, 128))];
    let c = m.render(3, &glyphs);
    // c' = c·a/255 for each channel
    assert_eq!((128, 100, 50), c.pixel(0, 0));
}

#[test]
fn s3_two_lines_height() {
    // ⌈18 · 1.2 · 2⌉ + 2·8 = 44 + 16
    let m = metrics("hi\nworld", "Monospace", 1800, "#cdd6f4", "#1e1e2e", 8);
    let c = m.render(30, &vec![]);
    assert_eq!(60, c.height());
    assert_eq!(46, c.width());
}

#[test]
fn padding_border_keeps_background() {
    let m = metrics("A", "Monospace", 1800, "#ffffff", "#123456", 3);
    let glyphs = vec![
        glyph(0, 0, 1, 1, (255, 255, 255, 255)),
        glyph(4, 21, 1, 1, (255, 255, 255, 255)),
    ];
    let c = m.render(5, &glyphs);
    let bg = (0x12, 0x34, 0x56);
    let w = c.width();
    let h = c.height();
    for x in 0..w {
        for d in 0..3 {
            assert_eq!(bg, c.pixel(x, d));
            assert_eq!(bg, c.pixel(x, h - 1 - d));
        }
    }
    for y in 0..h {
        for d in 0..3 {
            assert_eq!(bg, c.pixel(d, y));
            assert_eq!(bg, c.pixel(w - 1 - d, y));
        }
    }
    // The two corner glyphs did land, just inside the border.
    assert_eq!((255, 255, 255), c.pixel(3, 3));
    assert_eq!((255, 255, 255), c.pixel(w - 4, h - 4));
}

#[test]
fn out_of_range_and_non_unit_glyphs_are_skipped() {
    let m = metrics("A", "Monospace", 1800, "#ffffff", "#101010", 2);
    let glyphs = vec![
        glyph(-1, 0, 1, 1, (255, 255, 255, 255)),
        glyph(0, -1, 1, 1, (255, 255, 255, 255)),
        glyph(4, 0, 1, 1, (255, 255, 255, 255)),
        glyph(0, 22, 1, 1, (255, 255, 255, 255)),
        glyph(0, 0, 2, 1, (255, 255, 255, 255)),
        glyph(0, 0, 1, 2, (255, 255, 255, 255)),
        glyph(0, 0, 1, 1, (255, 255, 255, 0)),
    ];
    let c = m.render(4, &glyphs);
    for y in 0..c.height() {
        for x in 0..c.width() {
            assert_eq!((0x10, 0x10, 0x10), c.pixel(x, y));
        }
    }
}

#[test]
fn later_glyph_overwrites_earlier() {
    let m = metrics("A", "Monospace", 1800, "#ffffff", "#000000", 0);
    let glyphs = vec![
        glyph(1, 1, 1, 1, (255, 255, 255, 255)),
        glyph(1, 1, 1, 1, (10, 20, 30, 255)),
    ];
    let c = m.render(3, &glyphs);
    assert_eq!((10, 20, 30), c.pixel(1, 1));
}

#[test]
fn rendering_is_deterministic() {
    let m1 = metrics("hi\nworld", "Serif", 1800, "#cdd6f4", "#1e1e2e", 8);
    let m2 = metrics("hi\nworld", "Serif", 1800, "#cdd6f4", "#1e1e2e", 8);
    let glyphs = vec![
        glyph(0, 0, 1, 1, (200, 200, 200, 255)),
        glyph(3, 7, 1, 1, (200, 200, 200, 90)),
    ];
    let c1 = m1.render(20, &glyphs);
    let c2 = m2.render(20, &glyphs);
    assert_eq!(to_png(&c1).unwrap(), to_png(&c2).unwrap());
}

#[test]
fn zero_width_canvas_is_refused_by_encoder() {
    let c = Canvas::new(0, 5, (0, 0, 0));
    assert_eq!(Err(RenderError::OutputIo), to_png(&c));
}

#[test]
fn nonempty_canvas_always_encodes() {
    let c = Canvas::new(1, 1, (5, 6, 7));
    let bytes = to_png(&c).unwrap();
    let img = image::load_from_memory(&bytes).unwrap().to_rgb8();
    assert_eq!(1, img.width());
    assert_eq!(1, img.height());
    assert_eq!([5, 6, 7], img.get_pixel(0, 0).0);
}

#[test]
fn s4_short_and_long_defaults_agree() {
    let short = metrics("x", "Monospace", 1800, "#fff", "#000", 8);
    let long = metrics("x", "Monospace", 1800, "#ffffff", "#000000", 8);
    assert_eq!(short.color, long.color);
    assert_eq!(short.bg_color, long.bg_color);
}

#[test]
fn s5_invalid_color_is_fatal() {
    let r = Metrics::new(
        "anything".to_string(),
        &"Monospace".to_string(),
        1800,
        &"#qw12!@".to_string(),
        &"#1e1e2e".to_string(),
        8,
    );
    assert_eq!(Err(RenderError::InvalidColor), r);
}
