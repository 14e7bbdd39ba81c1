//! The worker's per-request decisions: warm path, size guard, cold path.
//!
//! A worker handling "thumbnail for this path at this size" first probes the
//! disk cache; cached bytes that decode settle the request without touching
//! the source file. Otherwise the source is read, subject to a size guard,
//! decoded, scaled to cover the target, center-cropped to exactly the target
//! size, and re-encoded for the disk cache. Every failure along the cold
//! path abandons the request silently: no result, no error. The reads and
//! writes themselves happen outside the library, which only turns the bytes
//! handed in into the result and the cache entry handed back.

use crate::bitmap::{cover_dims, cover_height, cover_width, crop_center};
use crate::image_ops::{
    decode_dims_of, decode_rgba, encode_jpeg, resample_triangle, ENCODE_PIXELS_MAX_BYTES,
};
use vstd::prelude::*;

verus! {

/// Largest source file the worker will decode, in bytes (100 MiB).
pub const SIZE_GUARD_BYTES: u64 = 104857600;

/// Whether a source file small enough to be worth decoding: a file exactly
/// at the guard passes, one byte over does not.
pub fn within_size_guard(size: u64) -> (r: bool)
    ensures
        r == (size <= SIZE_GUARD_BYTES),
{
    size <= SIZE_GUARD_BYTES
}

/// A finished thumbnail: the requested path and the decoded pixels.
pub struct LoadedImage {
    pub path: Vec<u8>,
    pub width: u32,
    pub height: u32,
    pub bytes: Vec<u8>,
}

impl LoadedImage {
    /// The pixel buffer holds exactly four bytes per pixel.
    pub open spec fn wf(self) -> bool {
        self.bytes@.len() == (self.width as int) * (self.height as int) * 4
    }
}

/// Warm path: settle a request from the disk-cache entry's bytes alone.
/// Succeeds exactly when the cached bytes decode; the result carries the
/// cached entry's own dimensions, and the source file plays no part.
pub fn accept_cached(path: &[u8], cached: &[u8]) -> (r: Option<LoadedImage>)
    ensures
        match r {
            Some(li) => {
                &&& decode_dims_of(cached@) == Some((li.width, li.height))
                &&& li.wf()
                &&& li.path@ == path@
            },
            None => decode_dims_of(cached@) is None,
        },
{
    match decode_rgba(cached) {
        Some(bm) => Some(
            LoadedImage {
                path: vstd::slice::slice_to_vec(path),
                width: bm.width,
                height: bm.height,
                bytes: bm.rgba,
            },
        ),
        None => None,
    }
}

/// When the cold path owes a result: the source passes the size guard, its
/// bytes decode to a non-degenerate image, and the sizes the resize pass
/// works with fit the machine's limits.
pub open spec fn producible(src: Seq<u8>, size: u64, tw: u32, th: u32) -> bool {
    &&& size <= SIZE_GUARD_BYTES
    &&& match decode_dims_of(src) {
        Some(dims) => {
            let sw = dims.0 as int;
            let sh = dims.1 as int;
            let w2 = cover_width(sw, sh, tw as int, th as int);
            let h2 = cover_height(sw, sh, tw as int, th as int);
            &&& sw >= 1
            &&& sh >= 1
            &&& w2 <= u32::MAX
            &&& h2 <= u32::MAX
            &&& w2 * h2 * 4 <= usize::MAX as int
            &&& sw * h2 * 4 <= usize::MAX as int
        },
        None => false,
    }
}

/// Cold path: produce the thumbnail and the bytes to persist from the
/// source file's size and content. Succeeds if and only if the request is
/// [`producible`]; the thumbnail is then exactly the target size, and the
/// returned cache entry decodes back to that same size.
pub fn produce_from_source(path: &[u8], size: u64, src: &[u8], tw: u32, th: u32) -> (r: Option<
    (LoadedImage, Vec<u8>),
>)
    requires
        1 <= tw <= 65535,
        1 <= th <= 65535,
        (tw as int) * (th as int) * 4 <= ENCODE_PIXELS_MAX_BYTES as int,
    ensures
        match r {
            Some(out) => {
                &&& producible(src@, size, tw, th)
                &&& out.0.path@ == path@
                &&& out.0.width == tw
                &&& out.0.height == th
                &&& out.0.wf()
                &&& decode_dims_of(out.1@) == Some((tw, th))
            },
            None => !producible(src@, size, tw, th),
        },
{
    if !within_size_guard(size) {
        return None;
    }
    let bm = match decode_rgba(src) {
        Some(bm) => bm,
        None => { return None },
    };
    if bm.width == 0 || bm.height == 0 {
        return None;
    }
    let (w2_raw, h2_raw) = cover_dims(bm.width, bm.height, tw, th);
    if w2_raw > 0xffffffff || h2_raw > 0xffffffff {
        return None;
    }
    let w2 = w2_raw as u32;
    let h2 = h2_raw as u32;
    proof {
        assert((w2 as int) * (h2 as int) * 4 < 0x100000000000000000 && (bm.width as int) * (
        h2 as int) * 4 < 0x100000000000000000) by (nonlinear_arith)
            requires
                w2 as int <= 0xffffffff,
                h2 as int <= 0xffffffff,
                bm.width as int <= 0xffffffff,
        {}
    }
    let limit: u128 = usize::MAX as u128;
    if (w2 as u128) * (h2 as u128) * 4 > limit {
        return None;
    }
    if (bm.width as u128) * (h2 as u128) * 4 > limit {
        return None;
    }
    let scaled = resample_triangle(&bm, w2, h2);
    let thumb = crop_center(&scaled, tw, th);
    let jpg = encode_jpeg(&thumb);
    let li = LoadedImage {
        path: vstd::slice::slice_to_vec(path),
        width: thumb.width,
        height: thumb.height,
        bytes: thumb.rgba,
    };
    Some((li, jpg))
}

/// Law (round trip): writing a produced thumbnail to the disk cache and
/// reading the entry straight back yields a result at exactly the
/// thumbnail's dimensions. The cache entry is re-encoded lossily, but its
/// pixel geometry survives the trip.
pub fn roundtrip_cache_entry(path: &[u8], bm: &crate::bitmap::Bitmap) -> (r: Option<LoadedImage>)
    requires
        bm.wf(),
        1 <= bm.width <= 65535,
        1 <= bm.height <= 65535,
        (bm.width as int) * (bm.height as int) * 4 <= ENCODE_PIXELS_MAX_BYTES as int,
    ensures
        match r {
            Some(li) => {
                &&& li.width == bm.width
                &&& li.height == bm.height
                &&& li.wf()
                &&& li.path@ == path@
            },
            None => false,
        },
{
    let jpg = encode_jpeg(bm);
    accept_cached(path, jpg.as_slice())
}

/// Law (size guard boundary): the guard alone never rejects a source file
/// at exactly the threshold — such a request is owed a result whenever the
/// same bytes would be at any size within the guard — while any size over
/// the threshold is abandoned, whatever the bytes hold.
pub proof fn lemma_size_guard_boundary(src: Seq<u8>, size: u64, tw: u32, th: u32)
    ensures
        size > SIZE_GUARD_BYTES ==> !producible(src, size, tw, th),
        size <= SIZE_GUARD_BYTES ==> (producible(src, size, tw, th) <==> producible(
            src,
            SIZE_GUARD_BYTES,
            tw,
            th,
        )),
{
}

} // verus!
