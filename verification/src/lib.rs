//! A text-to-image rendering library: it validates typographic and color
//! parameters, derives canvas dimensions from the text, and composites
//! shaped glyph samples over a solid background into an RGB canvas that a
//! PNG encoder serializes.

pub mod canvas;
pub mod color;
pub mod png;
pub mod render;
