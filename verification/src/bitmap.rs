//! Decoded images as plain values, and the geometry of fill/cover resizing.
//!
//! A bitmap is a width, a height and a raw RGBA buffer of four bytes per
//! pixel, row-major. Producing a thumbnail scales a source bitmap to the
//! smallest aspect-preserving size that covers the target rectangle, then
//! cuts the centered target-sized window out of it; the scaling itself is
//! resampling work done elsewhere, while the geometry — which intermediate
//! size to scale to, and which bytes the centered window holds — is decided
//! and proved here.

use vstd::arithmetic::div_mod::lemma_fundamental_div_mod;
use vstd::prelude::*;

verus! {

/// A decoded image held as plain values.
pub struct Bitmap {
    pub width: u32,
    pub height: u32,
    pub rgba: Vec<u8>,
}

impl Bitmap {
    /// The buffer holds exactly four bytes per pixel.
    pub open spec fn wf(self) -> bool {
        self.rgba@.len() == (self.width as int) * (self.height as int) * 4
    }
}

/// The width of the smallest aspect-preserving size that covers `dw` x `dh`
/// from a `sw` x `sh` source: the axis that is relatively tighter matches the
/// target exactly, the other overflows it.
pub open spec fn cover_width(sw: int, sh: int, dw: int, dh: int) -> int {
    if sw * dh >= sh * dw {
        sw * dh / sh
    } else {
        dw
    }
}

/// The height of the smallest aspect-preserving size that covers `dw` x `dh`.
pub open spec fn cover_height(sw: int, sh: int, dw: int, dh: int) -> int {
    if sw * dh >= sh * dw {
        dh
    } else {
        sh * dw / sw
    }
}

/// Compute the intermediate size a source is scaled to before cropping:
/// it covers the target on both axes and matches it on at least one.
pub fn cover_dims(sw: u32, sh: u32, dw: u32, dh: u32) -> (r: (u64, u64))
    requires
        1 <= sw,
        1 <= sh,
        1 <= dw,
        1 <= dh,
    ensures
        r.0 == cover_width(sw as int, sh as int, dw as int, dh as int),
        r.1 == cover_height(sw as int, sh as int, dw as int, dh as int),
        r.0 >= dw,
        r.1 >= dh,
        r.0 == dw || r.1 == dh,
{
    proof {
        assert((sw as int) * (dh as int) < 0x10000000000000000 && (sh as int) * (dw as int)
            < 0x10000000000000000) by (nonlinear_arith)
            requires
                sw as int <= 0xffffffff,
                dh as int <= 0xffffffff,
                sh as int <= 0xffffffff,
                dw as int <= 0xffffffff,
        {}
    }
    let a: u64 = (sw as u64) * (dh as u64);
    let b: u64 = (sh as u64) * (dw as u64);
    if a >= b {
        let w2: u64 = a / (sh as u64);
        proof {
            assert(a / (sh as u64) >= dw) by (nonlinear_arith)
                requires
                    a >= (sh as u64) * (dw as u64),
                    sh >= 1,
            {}
        }
        (w2, dh as u64)
    } else {
        let h2: u64 = b / (sw as u64);
        proof {
            assert(b / (sw as u64) >= dh) by (nonlinear_arith)
                requires
                    b >= (sw as u64) * (dh as u64),
                    sw >= 1,
            {}
        }
        (dw as u64, h2)
    }
}

/// The byte at flat output index `k` of a `w`-pixel-wide window whose top
/// left pixel sits at (`left`, `top`) of a `src_w`-pixel-wide source buffer.
pub open spec fn crop_fn(src: Seq<u8>, src_w: int, left: int, top: int, w: int) -> spec_fn(
    int,
) -> u8 {
    |k: int| src[((top + k / (4 * w)) * src_w + left) * 4 + k % (4 * w)]
}

/// The bytes of a `w` x `h` window cut out of a source buffer.
pub open spec fn crop_spec(
    src: Seq<u8>,
    src_w: int,
    left: int,
    top: int,
    w: int,
    h: int,
) -> Seq<u8> {
    Seq::new((4 * w * h) as nat, crop_fn(src, src_w, left, top, w))
}

/// Every index the window reads lies inside the source buffer.
proof fn lemma_crop_index_bound(
    src_w: int,
    src_h: int,
    w: int,
    h: int,
    left: int,
    top: int,
    y: int,
    c: int,
)
    requires
        1 <= w <= src_w,
        1 <= h <= src_h,
        0 <= left <= src_w - w,
        0 <= top <= src_h - h,
        0 <= y < h,
        0 <= c < 4 * w,
    ensures
        0 <= ((top + y) * src_w + left) * 4 + c < src_w * src_h * 4,
        0 <= (top + y) * src_w + left < src_w * src_h,
        src_w * src_h <= src_w * src_h * 4,
{
    assert((top + y) * src_w + left < src_w * src_h && src_w * src_h <= src_w * src_h * 4)
        by (nonlinear_arith)
        requires
            top + y <= src_h - 1,
            left <= src_w - w,
            1 <= w,
            src_w >= 1,
            src_h >= 1,
    {}
    assert(((top + y) * src_w + left) * 4 + c >= 0) by (nonlinear_arith)
        requires
            top + y >= 0,
            src_w >= 1,
            left >= 0,
            c >= 0,
    {}
    assert(((top + y) * src_w + left) * 4 + c < src_w * src_h * 4) by (nonlinear_arith)
        requires
            top + y <= src_h - 1,
            left <= src_w - w,
            c < 4 * w,
            1 <= w,
            src_w >= 1,
            src_h >= 1,
    {}
}

/// Cut the centered `w` x `h` window out of a larger bitmap.
pub fn crop_center(bm: &Bitmap, w: u32, h: u32) -> (r: Bitmap)
    requires
        bm.wf(),
        1 <= w <= bm.width,
        1 <= h <= bm.height,
    ensures
        r.wf(),
        r.width == w,
        r.height == h,
        r.rgba@ == crop_spec(
            bm.rgba@,
            bm.width as int,
            ((bm.width - w) / 2) as int,
            ((bm.height - h) / 2) as int,
            w as int,
            h as int,
        ),
{
    let src_w = bm.width;
    let src_h = bm.height;
    let left: usize = ((src_w - w) / 2) as usize;
    let top: usize = ((src_h - h) / 2) as usize;
    let ghost f = crop_fn(bm.rgba@, src_w as int, left as int, top as int, w as int);
    let len: usize = bm.rgba.len();
    proof {
        assert(4 * (w as int) <= 4 * (w as int) * (h as int) <= (src_w as int) * (src_h as int)
            * 4) by (nonlinear_arith)
            requires
                1 <= w <= src_w,
                1 <= h <= src_h,
        {}
    }
    let m: usize = 4 * (w as usize);
    let total: usize = m * (h as usize);
    let mut out: Vec<u8> = Vec::new();
    let mut k: usize = 0;
    proof {
        assert(out@ =~= Seq::new(0, f));
    }
    while k < total
        invariant
            bm.wf(),
            1 <= w <= bm.width,
            1 <= h <= bm.height,
            src_w == bm.width,
            src_h == bm.height,
            left == ((src_w - w) / 2) as int,
            top == ((src_h - h) / 2) as int,
            m == 4 * (w as int),
            total == 4 * (w as int) * (h as int),
            len as int == (src_w as int) * (src_h as int) * 4,
            len == bm.rgba@.len(),
            k <= total,
            f == crop_fn(bm.rgba@, src_w as int, left as int, top as int, w as int),
            out@ == Seq::new(k as nat, f),
        decreases total - k,
    {
        let y: usize = k / m;
        let c: usize = k % m;
        proof {
            lemma_fundamental_div_mod(k as int, m as int);
            assert(y < h) by (nonlinear_arith)
                requires
                    (k as int) < (m as int) * (h as int),
                    (k as int) == (m as int) * (y as int) + (c as int),
                    0 <= c as int,
                    m >= 4,
            {}
            lemma_crop_index_bound(
                src_w as int,
                src_h as int,
                w as int,
                h as int,
                left as int,
                top as int,
                y as int,
                c as int,
            );
        }
        let idx: usize = ((top + y) * (src_w as usize) + left) * 4 + c;
        let b = bm.rgba[idx];
        out.push(b);
        proof {
            assert(f(k as int) == b);
            assert(out@ =~= Seq::new((k + 1) as nat, f));
        }
        k = k + 1;
    }
    proof {
        assert(out@.len() == 4 * (w as int) * (h as int));
        assert(4 * (w as int) * (h as int) == (w as int) * (h as int) * 4) by (nonlinear_arith) {}
        assert(out@ == crop_spec(
            bm.rgba@,
            bm.width as int,
            ((bm.width - w) / 2) as int,
            ((bm.height - h) / 2) as int,
            w as int,
            h as int,
        ));
    }
    Bitmap { width: w, height: h, rgba: out }
}

} // verus!
