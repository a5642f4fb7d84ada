//! PNG serialization of a canvas.
//!
//! Encoding is delegated to the `image` crate; the library fixes only the
//! input handed to it — the canvas dimensions and its raw RGB bytes — and
//! names the byte stream that comes back.

use crate::canvas::Canvas;
use crate::render::RenderError;
use image::ImageEncoder;
use vstd::prelude::*;

verus! {

#[verifier::external_type_specification]
#[verifier::external_body]
pub struct ExImageError(image::ImageError);

/// The PNG byte stream that encodes an RGB image of the given dimensions
/// and row-major pixel bytes.
pub uninterp spec fn png_bytes_of(width: int, height: int, data: Seq<u8>) -> Seq<u8>;

/// Relies on `image::codecs::png::PngEncoder::write_image`: the PNG byte
/// stream it writes depends on the dimensions and pixel bytes alone; a
/// buffer of exactly `3·width·height` bytes is accepted as 8-bit RGB; and,
/// writing to an in-memory buffer, it fails exactly when a dimension is
/// zero.
#[verifier::external_body]
fn encode_png_raw(width: u32, height: u32, data: &Vec<u8>) -> (r: Result<
    Vec<u8>,
    image::ImageError,
>)
    requires
        data@.len() == 3 * (width as int) * (height as int),
    ensures
        r is Ok == (width >= 1 && height >= 1),
        r matches Ok(b) ==> b@ == png_bytes_of(width as int, height as int, data@),
{
    let mut out: Vec<u8> = Vec::new();
    let encoder = image::codecs::png::PngEncoder::new(&mut out);
    match encoder.write_image(data.as_slice(), width, height, image::ExtendedColorType::Rgb8) {
        Ok(()) => Ok(out),
        Err(e) => Err(e),
    }
}

/// Serialize a canvas as a PNG byte stream.  Encoding succeeds exactly
/// when both dimensions are at least one; the encoder refuses an empty
/// canvas.
pub fn to_png(canvas: &Canvas) -> (r: Result<Vec<u8>, RenderError>)
    requires
        canvas.wf(),
    ensures
        r is Ok <==> canvas@.width >= 1 && canvas@.height >= 1,
        r matches Ok(b) ==> b@ == png_bytes_of(
            canvas@.width as int,
            canvas@.height as int,
            canvas@.data,
        ),
        r matches Err(e) ==> e == RenderError::OutputIo,
{
    match encode_png_raw(canvas.width(), canvas.height(), canvas.data()) {
        Ok(b) => Ok(b),
        Err(_) => Err(RenderError::OutputIo),
    }
}

} // verus!
