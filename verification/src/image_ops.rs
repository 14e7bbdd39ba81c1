//! The trusted boundary to the `image` crate.
//!
//! Decoding bytes into pixels, resampling pixels to another size, and
//! re-encoding pixels as JPEG are the three jobs the library leaves to the
//! `image` crate. Each is reached through exactly one wrapper here; the rest
//! of the library works on the plain [`Bitmap`](crate::bitmap::Bitmap)
//! values these wrappers take and return, and is verified against their
//! contracts.

use crate::bitmap::Bitmap;
use vstd::prelude::*;

verus! {

/// Cap on a bitmap's pixel-buffer size (four bytes per pixel) for which a
/// re-encoded cache entry is promised to read back: 256 MiB. Decoding runs
/// under the decoder's default allocation limit of 512 MiB, and a capped
/// image decodes as RGB to at most 192 MiB, safely inside it.
pub const ENCODE_PIXELS_MAX_BYTES: u64 = 268435456;

/// What decoding a byte sequence yields: nothing when the bytes are not a
/// decodable image, otherwise the decoded pixel dimensions. Whether bytes
/// decode, and to which dimensions, is a function of the bytes alone, under
/// two standing assumptions: the decode runs with the crate's default
/// allocation limits (bytes whose decoded form would exceed them count as
/// undecodable), and the process registers no custom decoding hooks with
/// the image crate, which would make decoding depend on process state.
pub uninterp spec fn decode_dims_of(bytes: Seq<u8>) -> Option<(u32, u32)>;

/// Relies on image::load_from_memory and DynamicImage::into_rgba8: bytes
/// that decode yield an RGBA buffer of four bytes per pixel at the decoded
/// dimensions; undecodable bytes — a malformed image, or one whose decoded
/// form exceeds the default allocation limits — yield an error, never a
/// panic.
#[verifier::external_body]
pub fn decode_rgba(bytes: &[u8]) -> (r: Option<Bitmap>)
    ensures
        match r {
            Some(bm) => decode_dims_of(bytes@) == Some((bm.width, bm.height)) && bm.wf(),
            None => decode_dims_of(bytes@) is None,
        },
{
    match image::load_from_memory(bytes) {
        Ok(img) => {
            let rgba = img.into_rgba8();
            let (width, height) = (rgba.width(), rgba.height());
            Some(Bitmap { width, height, rgba: rgba.into_raw() })
        },
        Err(_) => None,
    }
}

/// Relies on DynamicImage::resize_exact with the triangle filter: the result
/// has exactly the requested dimensions. The resampling pass allocates an
/// intermediate buffer of the source width at the target height, so that
/// size must fit as well.
#[verifier::external_body]
pub fn resample_triangle(bm: &Bitmap, w2: u32, h2: u32) -> (r: Bitmap)
    requires
        bm.wf(),
        1 <= bm.width,
        1 <= bm.height,
        1 <= w2,
        1 <= h2,
        (w2 as int) * (h2 as int) * 4 <= usize::MAX as int,
        (bm.width as int) * (h2 as int) * 4 <= usize::MAX as int,
    ensures
        r.wf(),
        r.width == w2,
        r.height == h2,
{
    let buf = image::RgbaImage::from_raw(bm.width, bm.height, bm.rgba.clone())
        .expect("buffer matches dimensions");
    let img = image::DynamicImage::ImageRgba8(buf);
    let out = img.resize_exact(w2, h2, image::imageops::FilterType::Triangle).into_rgba8();
    Bitmap { width: w2, height: h2, rgba: out.into_raw() }
}

/// Relies on DynamicImage::write_to with ImageFormat::Jpeg: for dimensions
/// in JPEG's supported range, encoding into an in-memory buffer cannot fail,
/// and the bytes it yields decode back to an image of the same dimensions.
/// The size cap keeps that read-back inside the decoder's default
/// allocation limit, which would otherwise refuse a very large entry.
#[verifier::external_body]
pub fn encode_jpeg(bm: &Bitmap) -> (r: Vec<u8>)
    requires
        bm.wf(),
        1 <= bm.width <= 65535,
        1 <= bm.height <= 65535,
        (bm.width as int) * (bm.height as int) * 4 <= ENCODE_PIXELS_MAX_BYTES as int,
    ensures
        decode_dims_of(r@) == Some((bm.width, bm.height)),
{
    let buf = image::RgbaImage::from_raw(bm.width, bm.height, bm.rgba.clone())
        .expect("buffer matches dimensions");
    let img = image::DynamicImage::ImageRgba8(buf);
    let mut out = std::io::Cursor::new(Vec::new());
    img.write_to(&mut out, image::ImageFormat::Jpeg).expect("in-memory JPEG encode");
    out.into_inner()
}

} // verus!
