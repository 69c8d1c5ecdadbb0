//! Decoding and resampling, both done by the `image` crate.

use vstd::prelude::*;
use image::imageops::FilterType;
use image::{ImageBuffer, ImageError, Luma};
use crate::error::{DecodeError, ShapeError};
use crate::grid::{lemma_area_fits, GridView, PixelGrid};

verus! {

/// `image::ImageError`, carried from the decoder to [`describe`] and never
/// looked into.
#[verifier::external_type_specification]
#[verifier::external_body]
pub struct ExImageError(ImageError);

/// Calls `image::load_from_memory`, which guesses the format from the
/// content, and on success `DynamicImage::to_luma8`; hands back the width,
/// the height and the raw samples of the luma image. Nothing is claimed of
/// the outcome: which bytes decode, and to what, is the codec's affair.
#[verifier::external_body]
fn load_luma(bytes: &[u8]) -> (out: Result<(u32, u32, Vec<u8>), ImageError>) {
    let luma = image::load_from_memory(bytes)?.to_luma8();
    Ok((luma.width(), luma.height(), luma.into_raw()))
}

/// Renders an `image::ImageError` through its `Debug` impl. Nothing is
/// claimed of the text.
#[verifier::external_body]
fn describe(error: &ImageError) -> (detail: String) {
    format!("{:?}", error)
}

/// Decodes an encoded image into a single-channel grid. The format is
/// detected from the content; a colour image is collapsed to luma.
///
/// Whether the bytes decode, and to what, the codec says, and format hooks
/// registered with it may change its answer. [`PixelGrid::from_decoding`]
/// says what comes of each answer; whatever it was, a grid that comes out has
/// one sample per position, and `Inconsistent` tells a count that is not so.
pub fn decode(bytes: &[u8]) -> (out: Result<PixelGrid, DecodeError>)
    ensures
        out matches Ok(grid) ==> grid.wf(),
        out matches Err(DecodeError::Inconsistent { width, height, samples }) ==> samples != width
            * height,
{
    let outcome = match load_luma(bytes) {
        Ok(raster) => Ok(raster),
        Err(error) => Err(describe(&error)),
    };
    PixelGrid::from_decoding(outcome)
}

/// The samples that `image::imageops::resize` with `FilterType::Nearest`
/// makes of a `width * height` luma raster asked to become
/// `nwidth * nheight`.
pub uninterp spec fn nearest_resample(
    width: u32,
    height: u32,
    pixels: Seq<u8>,
    nwidth: u32,
    nheight: u32,
) -> Seq<u8>;

/// The buffers that resampling allocates stay within what one allocation may
/// hold: a scratch raster of `width * nheight` pixels at sixteen bytes each,
/// and the result.
pub open spec fn allocation_fits(width: u32, nwidth: u32, nheight: u32) -> bool {
    &&& 16 * (width * nheight) <= isize::MAX
    &&& nwidth * nheight <= isize::MAX
}

/// `out` is what nearest-neighbour resampling to `nwidth * nheight` makes of
/// `source`, together with what is known of that result.
pub open spec fn is_resampling(source: GridView, nwidth: u32, nheight: u32, out: Seq<u8>) -> bool {
    &&& out == nearest_resample(source.width, source.height, source.pixels, nwidth, nheight)
    &&& out.len() == nwidth * nheight
    &&& (nwidth == source.width && nheight == source.height ==> out == source.pixels)
    &&& (source.width > 0 && source.height > 0 ==> forall|i: int|
        0 <= i < out.len() ==> source.pixels.contains(#[trigger] out[i]))
    &&& (source.width == 0 || source.height == 0 ==> forall|i: int|
        0 <= i < out.len() ==> #[trigger] out[i] == 0)
}

/// Calls `image::imageops::resize` with `FilterType::Nearest` on the raster
/// seen as a luma image, and hands back the raw samples of the result.
///
/// Claimed of it: the result has `nwidth * nheight` samples; a raster asked
/// to keep its size is copied; of a raster without pixels the result is all
/// zero; otherwise every sample of the result is a sample of the raster,
/// since this filter gives a single source pixel the whole weight. The
/// `requires` keeps the buffers it allocates within the size of a vector.
#[verifier::external_body]
fn resize_raster(width: u32, height: u32, pixels: &Vec<u8>, nwidth: u32, nheight: u32) -> (out: Vec<u8>)
    requires
        pixels@.len() == width * height,
        allocation_fits(width, nwidth, nheight),
    ensures
        out@ == nearest_resample(width, height, pixels@, nwidth, nheight),
        out@.len() == nwidth * nheight,
        nwidth == width && nheight == height ==> out@ == pixels@,
        width > 0 && height > 0 ==> forall|i: int|
            0 <= i < out@.len() ==> pixels@.contains(#[trigger] out@[i]),
        width == 0 || height == 0 ==> forall|i: int| 0 <= i < out@.len() ==> #[trigger] out@[i] == 0,
{
    let source = ImageBuffer::<Luma<u8>, &[u8]>::from_raw(width, height, pixels.as_slice()).unwrap();
    image::imageops::resize(&source, nwidth, nheight, FilterType::Nearest).into_raw()
}

/// Whether resampling a raster of this width to `nwidth * nheight` stays
/// within what one allocation may hold.
pub fn fits_allocation(width: u32, nwidth: u32, nheight: u32) -> (ok: bool)
    ensures
        ok == allocation_fits(width, nwidth, nheight),
{
    proof {
        lemma_area_fits(width, nheight);
        lemma_area_fits(nwidth, nheight);
    }
    let limit: u128 = isize::MAX as u128;
    let scratch: u128 = (width as u128) * (nheight as u128);
    let result: u128 = (nwidth as u128) * (nheight as u128);
    16 * scratch <= limit && result <= limit
}

/// Resamples a grid to `nwidth * nheight` by nearest neighbour.
///
/// Fails with [`ShapeError::TooLarge`] exactly when the buffers needed would
/// exceed what one allocation may hold.
pub fn resize_nearest(grid: &PixelGrid, nwidth: u32, nheight: u32) -> (out: Result<PixelGrid, ShapeError>)
    ensures
        match out {
            Ok(resized) => allocation_fits(grid@.width, nwidth, nheight) && resized.wf()
                && resized@.width == nwidth && resized@.height == nheight
                && is_resampling(grid@, nwidth, nheight, resized@.pixels),
            Err(error) => !allocation_fits(grid@.width, nwidth, nheight)
                && error == ShapeError::TooLarge,
        },
{
    if !fits_allocation(grid.width(), nwidth, nheight) {
        return Err(ShapeError::TooLarge);
    }
    let pixels = resize_raster(grid.width(), grid.height(), grid.pixels(), nwidth, nheight);
    Ok(PixelGrid::assemble(nwidth, nheight, pixels))
}

} // verus!
