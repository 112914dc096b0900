use crate::grid::{pixels_of, samples_of, GridModel, PixelGrid};
use vstd::prelude::*;

verus! {

/// The error type of the image codec. A value of it is carried through
/// unread, so that a caller can report it with its causes.
#[verifier::external_type_specification]
#[verifier::external_body]
pub struct ExImageError(image::ImageError);

/// What the image codec writes for an RGBA image as PNG: the bytes of the
/// file, or nothing where it gives an error.
pub uninterp spec fn png_encoding(width: u32, height: u32, samples: Seq<u8>) -> Option<Seq<u8>>;

/// Calls `image::load_from_memory`, which guesses the format from the bytes,
/// and takes the decoded image as 8-bit RGBA through
/// `DynamicImage::to_rgba8` and `ImageBuffer::into_raw`. Which bytes decode,
/// and to what, is left open: the codec may be extended while the program
/// runs. The contract claims only what the codec checks of every image
/// buffer it makes: the samples are enough for four per pixel.
#[verifier::external_body]
fn load_rgba(data: &[u8]) -> (raw: Option<(u32, u32, Vec<u8>)>)
    ensures
        raw matches Some(t) ==> t.2@.len() >= 4 * (t.0 * t.1),
{
    match image::load_from_memory(data) {
        Ok(loaded) => {
            let rgba = loaded.to_rgba8();
            Some((rgba.width(), rgba.height(), rgba.into_raw()))
        },
        Err(_) => None,
    }
}

/// Calls `image::write_buffer_with_format` for 8-bit RGBA and the PNG
/// format, into a buffer in memory. The codec stops on a buffer whose length
/// is not four bytes per pixel, so such a buffer is not admitted. The
/// contract only names the outcome; the codec's error is handed on as it is.
#[verifier::external_body]
fn write_png(width: u32, height: u32, samples: &[u8]) -> (file: Result<Vec<u8>, image::ImageError>)
    requires
        samples@.len() == 4 * (width * height),
    ensures
        png_encoding(width, height, samples@) == (match file {
            Ok(bytes) => Some(bytes@),
            Err(_) => None,
        }),
{
    let mut out = std::io::Cursor::new(Vec::new());
    match image::write_buffer_with_format(
        &mut out,
        samples,
        width,
        height,
        image::ExtendedColorType::Rgba8,
        image::ImageFormat::Png,
    ) {
        Ok(()) => Ok(out.into_inner()),
        Err(e) => Err(e),
    }
}

/// The grid that a decoded image stands for: its first four samples per
/// pixel, read as RGBA. Gives `None` only where the samples are too few.
pub fn grid_of_samples(width: u32, height: u32, samples: Vec<u8>) -> (grid: Option<PixelGrid>)
    ensures
        grid.is_some() <==> samples@.len() >= 4 * (width * height),
        grid matches Some(g) ==> g@ == (GridModel {
            width,
            height,
            pixels: pixels_of(samples@.take(4 * (width * height))),
        }),
{
    let mut samples = samples;
    let count = crate::grid::area(width, height);
    if (samples.len() / 4) as u64 >= count {
        let need: usize = 4 * (count as usize);
        samples.truncate(need);
        PixelGrid::from_rgba(width, height, samples.as_slice())
    } else {
        None
    }
}

/// Decodes an image in any format the codec recognises. Gives `None` where
/// the codec gives no image, and every image that the codec gives as a grid
/// of its size.
pub fn decode(data: &[u8]) -> (grid: Option<PixelGrid>)
    ensures
        grid matches Some(g) ==> g@.pixels.len() == g@.width * g@.height,
{
    match load_rgba(data) {
        Some((width, height, samples)) => {
            grid_of_samples(width, height, samples)
        },
        None => None,
    }
}

/// Encodes a grid as a PNG file with 8-bit RGBA samples. Gives the codec's
/// error where it refuses the image.
pub fn encode_png(grid: &PixelGrid) -> (file: Result<Vec<u8>, image::ImageError>)
    ensures
        png_encoding(grid@.width, grid@.height, samples_of(grid@.pixels)) == (match file {
            Ok(bytes) => Some(bytes@),
            Err(_) => None,
        }),
{
    let samples = grid.to_rgba();
    write_png(grid.width(), grid.height(), samples.as_slice())
}

} // verus!
