//! Trusted boundary to the `image` codec crate. Every contract here is
//! stated over plain values: the source bytes, a rectangle, a target size
//! and a quality; what an outside call returns is either given exactly
//! (dimensions) or under a name for the encoded bytes it determines.
//!
//! The `image` crate has process-global decoding hooks
//! (`register_format_detection_hook` / `register_decoding_hook`) that could
//! change what the same bytes decode to. This crate registers none, and
//! these contracts assume the host process registers none either.
use crate::errors::PipelineError;
use image::GenericImageView;
use vstd::prelude::*;

verus! {

/// Whether a byte sequence decodes as a supported raster image and, if so,
/// to which pixel dimensions. Decoding is a function of the bytes alone.
pub uninterp spec fn decoded_dims(bytes: Seq<u8>) -> Option<(u32, u32)>;

/// The JPEG bytes produced by decoding `bytes`, cutting out the rectangle
/// `(x, y, w, h)`, and re-encoding it at `quality`: a function of these
/// arguments alone.
pub uninterp spec fn region_jpeg_of(
    bytes: Seq<u8>,
    x: u32,
    y: u32,
    w: u32,
    h: u32,
    quality: u8,
) -> Seq<u8>;

/// The JPEG bytes produced by decoding `bytes`, downsampling to exactly
/// `w` by `h` pixels, and re-encoding at `quality`: a function of these
/// arguments alone.
pub uninterp spec fn scaled_jpeg_of(bytes: Seq<u8>, w: u32, h: u32, quality: u8) -> Seq<u8>;

/// Relies on `image::load_from_memory` and
/// `GenericImageView::dimensions`: whether bytes decode, and to what size,
/// is deterministic in the bytes (no decoding hooks registered).
#[verifier::external_body]
pub(crate) fn image_dims(bytes: &Vec<u8>) -> (r: Result<(u32, u32), PipelineError>)
    ensures
        r is Ok <==> decoded_dims(bytes@) is Some,
        (r matches Ok(d) ==> decoded_dims(bytes@) == Some(d)),
        (r matches Err(e) ==> e == PipelineError::Decode),
{
    match image::load_from_memory(bytes.as_slice()) {
        Ok(img) => Ok(img.dimensions()),
        Err(_) => Err(PipelineError::Decode),
    }
}

/// Relies on `image::load_from_memory`, `DynamicImage::crop_imm` (exact
/// for an in-bounds rectangle), `DynamicImage::to_rgb8` (keeps the
/// dimensions) and `JpegEncoder::new_with_quality` /
/// `JpegEncoder::encode_image` writing to a `Vec`, which cannot fail as a
/// sink: under the `requires`, the source decodes and the cropped
/// dimensions lie in `1..=65535`, so encoding succeeds, the result is
/// determined by the arguments alone, and the stream begins with the
/// two start-of-image bytes followed by a marker segment.
#[verifier::external_body]
pub(crate) fn encode_region(
    bytes: &Vec<u8>,
    x: u32,
    y: u32,
    w: u32,
    h: u32,
    quality: u8,
) -> (r: Vec<u8>)
    requires
        (decoded_dims(bytes@) matches Some(d) && x + w <= d.0 && y + h <= d.1),
        1 <= w <= 65535,
        1 <= h <= 65535,
        1 <= quality <= 100,
    ensures
        r@ == region_jpeg_of(bytes@, x, y, w, h, quality),
        r@.len() >= 4,
        r@[0] == 0xff && r@[1] == 0xd8,
{
    let rect = match image::load_from_memory(bytes.as_slice()) {
        Ok(img) => img.crop_imm(x, y, w, h),
        Err(_) => return Vec::new(),
    };
    let mut out: Vec<u8> = Vec::new();
    let mut encoder = image::codecs::jpeg::JpegEncoder::new_with_quality(&mut out, quality);
    match encoder.encode_image(&rect.to_rgb8()) {
        Ok(()) => out,
        Err(_) => Vec::new(),
    }
}

/// Relies on `image::load_from_memory`, `DynamicImage::thumbnail_exact`
/// (returns exactly the requested dimensions), `DynamicImage::to_rgb8` and
/// `JpegEncoder::new_with_quality` / `JpegEncoder::encode_image` writing
/// to a `Vec`: under the `requires` the target dimensions lie in
/// `1..=65535`, so encoding succeeds, the result is determined by the
/// arguments alone, and the stream begins with the two start-of-image
/// bytes followed by a marker segment.
#[verifier::external_body]
pub(crate) fn encode_scaled(bytes: &Vec<u8>, w: u32, h: u32, quality: u8) -> (r: Vec<u8>)
    requires
        decoded_dims(bytes@) is Some,
        1 <= w <= 65535,
        1 <= h <= 65535,
        1 <= quality <= 100,
    ensures
        r@ == scaled_jpeg_of(bytes@, w, h, quality),
        r@.len() >= 4,
        r@[0] == 0xff && r@[1] == 0xd8,
{
    let scaled = match image::load_from_memory(bytes.as_slice()) {
        Ok(img) => img.thumbnail_exact(w, h),
        Err(_) => return Vec::new(),
    };
    let mut out: Vec<u8> = Vec::new();
    let mut encoder = image::codecs::jpeg::JpegEncoder::new_with_quality(&mut out, quality);
    match encoder.encode_image(&scaled.to_rgb8()) {
        Ok(()) => out,
        Err(_) => Vec::new(),
    }
}

} // verus!
