//! The per-image pipeline: thumbnail preparation for the preview list, and
//! the split/re-encode/density-patch step that turns one source image into
//! its two output halves.
use crate::ascii::ascii_chars;
use crate::base64::{b64_encode, encode_to_base64};
use crate::errors::PipelineError;
use crate::imaging::{
    decoded_dims, encode_region, encode_scaled, image_dims, region_jpeg_of, scaled_jpeg_of,
};
use crate::jfif::{has_soi, jfif_density, patched, set_jpeg_dpi};
use crate::naming::{half_file_names, padded_decimal};
use crate::scheduler::ImageItem;
use vstd::prelude::*;
use vstd::string::StringExecFns;

verus! {

/// Bounding box of a preview thumbnail, in pixels.
pub const THUMBNAIL_SIZE: u32 = 200;

/// JPEG quality of a preview thumbnail.
pub const THUMBNAIL_QUALITY: u8 = 85;

/// JPEG quality of the exported halves.
pub const EXPORT_QUALITY: u8 = 100;

/// Pixel density written into every exported half, in dots per inch.
pub const OUTPUT_DPI: u16 = 300;

/// A text is a JPEG data URI: the scheme prefix followed by the base64
/// encoding of a byte stream that begins with the JPEG start-of-image
/// marker.
pub open spec fn is_jpeg_data_uri(s: Seq<char>) -> bool {
    exists|b: Seq<u8>|
        s == "data:image/jpeg;base64,"@ + ascii_chars(#[trigger] b64_encode(b)) && b.len() >= 4
            && b[0] == 0xff && b[1] == 0xd8
}

/// Bounded-box downsample dimensions: a source that already fits inside
/// the `bound` square keeps its size; a larger one is scaled so its longer
/// side becomes `bound`, the shorter side following the aspect ratio by
/// integer division, clamped to at least one pixel.
pub open spec fn fit_in_box(w: u32, h: u32, bound: u32) -> (u32, u32) {
    if w <= bound && h <= bound {
        (w, h)
    } else if w >= h {
        if (h as int * bound as int) / (w as int) >= 1 {
            (bound, ((h as int * bound as int) / (w as int)) as u32)
        } else {
            (bound, 1u32)
        }
    } else {
        if (w as int * bound as int) / (h as int) >= 1 {
            (((w as int * bound as int) / (h as int)) as u32, bound)
        } else {
            (1u32, bound)
        }
    }
}

/// Compute the bounded-box downsample dimensions.
pub fn thumbnail_dims(w: u32, h: u32, bound: u32) -> (r: (u32, u32))
    requires
        1 <= w,
        1 <= h,
        1 <= bound <= 65535,
    ensures
        r == fit_in_box(w, h, bound),
        1 <= r.0 <= bound,
        1 <= r.1 <= bound,
        r.0 <= w,
        r.1 <= h,
        w <= bound && h <= bound ==> r == (w, h),
{
    if w <= bound && h <= bound {
        (w, h)
    } else if w >= h {
        proof {
            assert((h as int) * (bound as int) <= 0xffffffff * 65535) by (nonlinear_arith)
                requires
                    0 <= h as int <= 0xffffffff,
                    0 <= bound as int <= 65535,
            ;
        }
        let scaled: u64 = ((h as u64) * (bound as u64)) / (w as u64);
        proof {
            assert((h as int * bound as int) / (w as int) <= bound as int) by (nonlinear_arith)
                requires
                    1 <= w as int,
                    1 <= bound as int,
                    h as int <= w as int,
            ;
            assert(((h * bound) as int) / (w as int) <= h as int) by (nonlinear_arith)
                requires
                    1 <= w as int,
                    1 <= h as int,
                    bound as int <= w as int,
            ;
        }
        let th: u32 = if scaled >= 1 {
            scaled as u32
        } else {
            1
        };
        (bound, th)
    } else {
        proof {
            assert((w as int) * (bound as int) <= 0xffffffff * 65535) by (nonlinear_arith)
                requires
                    0 <= w as int <= 0xffffffff,
                    0 <= bound as int <= 65535,
            ;
        }
        let scaled: u64 = ((w as u64) * (bound as u64)) / (h as u64);
        proof {
            assert((w as int * bound as int) / (h as int) <= bound as int) by (nonlinear_arith)
                requires
                    1 <= h as int,
                    1 <= bound as int,
                    w as int <= h as int,
            ;
            assert(((w * bound) as int) / (h as int) <= w as int) by (nonlinear_arith)
                requires
                    1 <= h as int,
                    1 <= w as int,
                    bound as int <= h as int,
            ;
        }
        let tw: u32 = if scaled >= 1 {
            scaled as u32
        } else {
            1
        };
        (tw, bound)
    }
}

/// Aspect law of the downscale: when the longer side of a too-large source
/// is brought to `bound` and the integer-divided shorter side is not
/// clamped to one pixel, the output ratio brackets the source ratio within
/// one rounding step: `th * w <= h * tw < (th + 1) * w` for a landscape
/// source (and symmetrically for a portrait one).
pub proof fn lemma_thumbnail_aspect(w: int, h: int, bound: int, tw: int, th: int)
    requires
        1 <= h <= w,
        bound >= 1,
        w > bound,
        tw == bound,
        th == (h * bound) / w,
        th >= 1,
    ensures
        th * w <= h * tw,
        h * tw < (th + 1) * w,
{
    vstd::arithmetic::div_mod::lemma_fundamental_div_mod(h * bound, w);
    vstd::arithmetic::div_mod::lemma_mod_bound(h * bound, w);
    assert(th * w <= h * bound && h * bound < (th + 1) * w) by (nonlinear_arith)
        requires
            h * bound == w * ((h * bound) / w) + (h * bound) % w,
            0 <= (h * bound) % w < w,
            th == (h * bound) / w,
    ;
}

/// The data-URI text shown inline for a JPEG byte buffer.
pub fn to_data_uri(jpeg: &Vec<u8>) -> (r: String)
    ensures
        r@ == "data:image/jpeg;base64,"@ + ascii_chars(b64_encode(jpeg@)),
{
    let mut s = "data:image/jpeg;base64,".to_owned();
    let enc = encode_to_base64(jpeg.as_slice());
    s.append(enc.as_str());
    s
}

/// Whether a source loads: it decodes, with at least one pixel each way.
pub open spec fn loadable(bytes: Seq<u8>) -> bool {
    decoded_dims(bytes) matches Some(d) && 1 <= d.0 && 1 <= d.1
}

/// Decode a source image, downsample it into the thumbnail bounding box,
/// re-encode it as JPEG at the thumbnail quality and return it as a
/// data-URI text. Fails exactly when the source does not decode to at
/// least one pixel.
pub fn create_thumbnail(source: &Vec<u8>) -> (r: Result<String, PipelineError>)
    ensures
        r is Ok <==> loadable(source@),
        (decoded_dims(source@) matches Some(d) ==> (r matches Ok(s) ==> s@
            == "data:image/jpeg;base64,"@ + ascii_chars(b64_encode(scaled_jpeg_of(
            source@,
            fit_in_box(d.0, d.1, THUMBNAIL_SIZE).0,
            fit_in_box(d.0, d.1, THUMBNAIL_SIZE).1,
            THUMBNAIL_QUALITY,
        ))))),
        (r matches Ok(s) ==> is_jpeg_data_uri(s@)),
        (r matches Err(e) ==> e == PipelineError::Decode),
{
    let dims = match image_dims(source) {
        Ok(d) => d,
        Err(_) => {
            return Err(PipelineError::Decode);
        },
    };
    if dims.0 < 1 || dims.1 < 1 {
        return Err(PipelineError::Decode);
    }
    let target = thumbnail_dims(dims.0, dims.1, THUMBNAIL_SIZE);
    let jpg = encode_scaled(source, target.0, target.1, THUMBNAIL_QUALITY);
    let text = to_data_uri(&jpg);
    proof {
        assert(is_jpeg_data_uri(text@));
    }
    Ok(text)
}

/// Widths of the two vertical halves: integer halving leaves the left half
/// one column narrower for odd widths, and the two halves always rebuild
/// the source width exactly.
pub fn split_widths(width: u32) -> (r: (u32, u32))
    ensures
        r.0 == width / 2,
        r.1 == width - width / 2,
        r.0 + r.1 == width,
        r.0 <= r.1,
{
    let half = width / 2;
    (half, width - half)
}

/// Re-encode one in-bounds region of a decodable source as JPEG and stamp
/// the fixed output density into its JFIF segment.
pub fn encode_region_with_dpi(
    source: &Vec<u8>,
    x: u32,
    y: u32,
    w: u32,
    h: u32,
    quality: u8,
) -> (r: Vec<u8>)
    requires
        (decoded_dims(source@) matches Some(d) && x + w <= d.0 && y + h <= d.1),
        1 <= w <= 65535,
        1 <= h <= 65535,
        1 <= quality <= 100,
    ensures
        r@ == patched(region_jpeg_of(source@, x, y, w, h, quality), OUTPUT_DPI),
        has_soi(r@),
        jfif_density(r@) == Some((1int, OUTPUT_DPI as int, OUTPUT_DPI as int)),
{
    let mut buf = encode_region(source, x, y, w, h, quality);
    let ghost pre = buf@;
    proof {
        crate::jfif::lemma_patched_density(pre, OUTPUT_DPI);
    }
    match set_jpeg_dpi(&mut buf, OUTPUT_DPI) {
        Ok(()) => buf,
        Err(_) => buf,
    }
}

/// The two encoded halves of one source image and their output file names.
pub struct SplitOutput {
    pub left: Vec<u8>,
    pub right: Vec<u8>,
    pub left_name: String,
    pub right_name: String,
}

/// Whether decoded dimensions admit two re-encoded halves: the narrower
/// left half must have at least one column, the wider right half must fit
/// a JPEG frame, and so must the shared height.
pub open spec fn splittable(w: u32, h: u32) -> bool {
    1 <= w / 2 && w - w / 2 <= 65535 && 1 <= h <= 65535
}

/// Split one source image into a left half of `width / 2` columns and a
/// right half of the remaining columns, both of full height, re-encode
/// both halves at the export quality with the fixed output density, and
/// name them `<NN>_1.jpg` / `<NN>_2.jpg` after the item's sequence number.
pub fn process_single_image(source: &Vec<u8>, sequence_num: usize) -> (r: Result<
    SplitOutput,
    PipelineError,
>)
    ensures
        decoded_dims(source@) is None ==> (r matches Err(PipelineError::Decode)),
        (decoded_dims(source@) matches Some(d) ==> (r is Ok <==> splittable(d.0, d.1))),
        (decoded_dims(source@) matches Some(d) && !splittable(d.0, d.1) ==> (r matches Err(
            PipelineError::Encode,
        ))),
        (decoded_dims(source@) matches Some(d) ==> (r matches Ok(out) ==> out.left@ == patched(
            region_jpeg_of(source@, 0, 0, (d.0 / 2) as u32, d.1, EXPORT_QUALITY),
            OUTPUT_DPI,
        ) && out.right@ == patched(
            region_jpeg_of(
                source@,
                (d.0 / 2) as u32,
                0,
                (d.0 - d.0 / 2) as u32,
                d.1,
                EXPORT_QUALITY,
            ),
            OUTPUT_DPI,
        ))),
        (r matches Ok(out) ==> has_soi(out.left@) && jfif_density(out.left@) == Some(
            (1int, OUTPUT_DPI as int, OUTPUT_DPI as int),
        ) && has_soi(out.right@) && jfif_density(out.right@) == Some(
            (1int, OUTPUT_DPI as int, OUTPUT_DPI as int),
        ) && out.left_name@ == ascii_chars(padded_decimal(sequence_num as nat)) + "_1.jpg"@
            && out.right_name@ == ascii_chars(padded_decimal(sequence_num as nat))
            + "_2.jpg"@),
{
    let dims = match image_dims(source) {
        Ok(d) => d,
        Err(e) => {
            return Err(e);
        },
    };
    let widths = split_widths(dims.0);
    if widths.0 < 1 || widths.1 > 65535 || dims.1 < 1 || dims.1 > 65535 {
        return Err(PipelineError::Encode);
    }
    let left = encode_region_with_dpi(source, 0, 0, widths.0, dims.1, EXPORT_QUALITY);
    let right = encode_region_with_dpi(source, widths.0, 0, widths.1, dims.1, EXPORT_QUALITY);
    let names = half_file_names(sequence_num);
    Ok(SplitOutput { left, right, left_name: names.0, right_name: names.1 })
}

/// Paths of the sources that load successfully, in order.
pub open spec fn kept_paths(sources: Seq<(String, Vec<u8>)>) -> Seq<Seq<char>>
    decreases sources.len(),
{
    if sources.len() == 0 {
        Seq::empty()
    } else if loadable(sources[0].1@) {
        seq![sources[0].0@] + kept_paths(sources.skip(1))
    } else {
        kept_paths(sources.skip(1))
    }
}

/// Build the ordered preview collection from `(path, bytes)` sources: a
/// source that fails to decode is skipped, the rest keep their order and
/// receive sequential ids starting at zero (so ids are unique), each with
/// its thumbnail text.
pub fn load_items(sources: &Vec<(String, Vec<u8>)>) -> (r: Vec<ImageItem>)
    ensures
        r@.map_values(|it: ImageItem| it.path@) == kept_paths(sources@),
        forall|j: int| 0 <= j < r@.len() ==> (#[trigger] r@[j]).id == j,
        forall|j: int, k: int|
            0 <= j < r@.len() && 0 <= k < r@.len() && j != k ==> (#[trigger] r@[j]).id != (
            #[trigger] r@[k]).id,
        forall|j: int|
            0 <= j < r@.len() ==> is_jpeg_data_uri((#[trigger] r@[j]).thumbnail_base64@),
{
    let mut r: Vec<ImageItem> = Vec::new();
    let mut i: usize = 0;
    proof {
        assert(sources@.skip(0) =~= sources@);
        assert(r@.map_values(|it: ImageItem| it.path@) + kept_paths(sources@) =~= kept_paths(
            sources@,
        ));
    }
    while i < sources.len()
        invariant
            i <= sources@.len(),
            r@.map_values(|it: ImageItem| it.path@) + kept_paths(sources@.skip(i as int))
                == kept_paths(sources@),
            forall|j: int| 0 <= j < r@.len() ==> (#[trigger] r@[j]).id == j,
            forall|j: int|
                0 <= j < r@.len() ==> is_jpeg_data_uri((#[trigger] r@[j]).thumbnail_base64@),
        decreases sources@.len() - i,
    {
        let ghost prev = r@;
        let source = &sources[i];
        proof {
            assert(sources@.skip(i as int)[0] == sources@[i as int]);
            assert(sources@.skip(i as int).skip(1) =~= sources@.skip(i + 1));
        }
        match create_thumbnail(&source.1) {
            Ok(thumb) => {
                let id = r.len();
                r.push(ImageItem { id, path: source.0.clone(), thumbnail_base64: thumb });
                proof {
                    assert(r@.map_values(|it: ImageItem| it.path@) =~= prev.map_values(
                        |it: ImageItem| it.path@,
                    ) + seq![sources@[i as int].0@]);
                    assert(prev.map_values(|it: ImageItem| it.path@) + (seq![
                        sources@[i as int].0@,
                    ] + kept_paths(sources@.skip(i + 1))) =~= r@.map_values(
                        |it: ImageItem| it.path@,
                    ) + kept_paths(sources@.skip(i + 1)));
                }
            },
            Err(_) => {
            },
        }
        i += 1;
    }
    proof {
        assert(sources@.skip(sources@.len() as int) =~= Seq::<(String, Vec<u8>)>::empty());
        assert(r@.map_values(|it: ImageItem| it.path@) + Seq::<Seq<char>>::empty() =~= r@
            .map_values(|it: ImageItem| it.path@));
    }
    r
}

} // verus!
