use vstd::prelude::*;
use crate::raster::Raster;

verus! {

/// What decoding `bytes` and converting the picture to eight-bit luminance
/// gives: width, height and row-major samples, or `None` where the bytes are
/// no picture in a supported format.
pub uninterp spec fn decoded_gray(bytes: Seq<u8>) -> Option<(u32, u32, Seq<u8>)>;

/// The reason a source picture could not be loaded.
#[derive(Debug, Clone, Copy, PartialEq, Eq, Structural)]
pub enum LoadError {
    /// The bytes are in no supported format, or decoding them failed.
    Undecodable,
}

/// Relies on `image::load_from_memory`, `DynamicImage::grayscale` and
/// `DynamicImage::to_luma8`: the decoded picture as one luminance byte per
/// pixel, a buffer that `to_luma8` allocates at exactly `width * height`.
#[verifier::external_body]
fn decode_gray(bytes: &[u8]) -> (r: Option<(u32, u32, Vec<u8>)>)
    ensures
        match r {
            Some((w, h, p)) => decoded_gray(bytes@) == Some((w, h, p@)) && p@.len() == w as int
                * h as int,
            None => decoded_gray(bytes@) is None,
        },
{
    match image::load_from_memory(bytes) {
        Ok(img) => {
            let gray = img.grayscale().to_luma8();
            Some((gray.width(), gray.height(), gray.into_raw()))
        },
        Err(_) => None,
    }
}

/// Decodes the picture in `bytes` into a grayscale raster.
pub fn load_raster(bytes: &[u8]) -> (r: Result<Raster, LoadError>)
    ensures
        match decoded_gray(bytes@) {
            Some((w, h, p)) => r matches Ok(ras) && ras.wf() && ras.width == w && ras.height == h
                && ras.pixels@ == p,
            None => r == Err::<Raster, LoadError>(LoadError::Undecodable),
        },
{
    match decode_gray(bytes) {
        Some((w, h, pixels)) => Ok(Raster { width: w as usize, height: h as usize, pixels }),
        None => Err(LoadError::Undecodable),
    }
}

} // verus!
