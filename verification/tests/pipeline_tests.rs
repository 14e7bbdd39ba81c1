use guhwall::bitmap::{cover_dims, crop_center, Bitmap};
use guhwall::pipeline::{
    accept_cached, produce_from_source, roundtrip_cache_entry, within_size_guard,
    SIZE_GUARD_BYTES,
};

fn png_bytes(w: u32, h: u32) -> Vec<u8> {
    let img = image::RgbaImage::from_fn(w, h, |x, y| {
        image::Rgba([(x % 256) as u8, (y % 256) as u8, 128, 255])
    });
    let mut out = std::io::Cursor::new(Vec::new());
    image::DynamicImage::ImageRgba8(img)
        .write_to(&mut out, image::ImageFormat::Png)
        .unwrap();
    out.into_inner()
}

#[test]
fn size_guard_boundary() {
    assert!(within_size_guard(SIZE_GUARD_BYTES));
    assert!(within_size_guard(0));
    assert!(!within_size_guard(SIZE_GUARD_BYTES + 1));
}

#[test]
fn source_at_guard_is_processed_one_byte_over_is_not() {
    let src = png_bytes(10, 10);
    let at = produce_from_source(b"/pics/a.png", SIZE_GUARD_BYTES, &src, 240, 150);
    assert!(at.is_some());
    let over = produce_from_source(b"/pics/a.png", SIZE_GUARD_BYTES + 1, &src, 240, 150);
    assert!(over.is_none());
}

#[test]
fn undecodable_bytes_yield_no_result() {
    let garbage: Vec<u8> = (0..4096u32).map(|i| (i * 37 % 251) as u8).collect();
    assert!(produce_from_source(b"/pics/bad.png", 4096, &garbage, 240, 150).is_none());
    assert!(accept_cached(b"/pics/bad.png", &garbage).is_none());
}

#[test]
fn cold_path_produces_exact_target_size() {
    let src = png_bytes(500, 500);
    let len = src.len() as u64;
    let (li, entry) = produce_from_source(b"/pics/a.png", len, &src, 240, 150).unwrap();
    assert_eq!(li.path, b"/pics/a.png".to_vec());
    assert_eq!(li.width, 240);
    assert_eq!(li.height, 150);
    assert_eq!(li.bytes.len(), 240 * 150 * 4);
    // The persisted entry is a real image of the same size.
    let reread = image::load_from_memory(&entry).unwrap();
    assert_eq!(reread.width(), 240);
    assert_eq!(reread.height(), 150);
}

#[test]
fn warm_path_settles_from_cache_entry_alone() {
    let src = png_bytes(500, 500);
    let len = src.len() as u64;
    let (_, entry) = produce_from_source(b"/pics/a.png", len, &src, 240, 150).unwrap();
    // Second run: only the cache entry's bytes are handed in.
    let li = accept_cached(b"/pics/a.png", &entry).unwrap();
    assert_eq!(li.width, 240);
    assert_eq!(li.height, 150);
    assert_eq!(li.bytes.len(), 240 * 150 * 4);
    assert_eq!(li.path, b"/pics/a.png".to_vec());
}

#[test]
fn store_then_reload_keeps_dimensions() {
    let mut rgba = Vec::new();
    for i in 0..(3 * 2 * 4) {
        rgba.push((i * 11 % 256) as u8);
    }
    let bm = Bitmap { width: 3, height: 2, rgba };
    let li = roundtrip_cache_entry(b"/pics/tiny.png", &bm).unwrap();
    assert_eq!(li.width, 3);
    assert_eq!(li.height, 2);
    assert_eq!(li.bytes.len(), 3 * 2 * 4);
}

#[test]
fn wide_source_is_cropped_not_letterboxed() {
    let src = png_bytes(1000, 200);
    let len = src.len() as u64;
    let (li, _) = produce_from_source(b"/pics/wide.png", len, &src, 240, 150).unwrap();
    assert_eq!((li.width, li.height), (240, 150));
}

#[test]
fn cover_dims_exact_values() {
    // Square source, wider target: height is the tight axis.
    assert_eq!(cover_dims(500, 500, 240, 150), (240, 240));
    // Wide source: width overflows the target, height matches.
    assert_eq!(cover_dims(1000, 500, 240, 150), (300, 150));
    // Tall source: width matches, height overflows.
    assert_eq!(cover_dims(500, 1000, 240, 150), (240, 480));
    // Exact match.
    assert_eq!(cover_dims(240, 150, 240, 150), (240, 150));
}

#[test]
fn crop_center_exact_bytes() {
    let rgba: Vec<u8> = (0..32u8).collect();
    let bm = Bitmap { width: 4, height: 2, rgba };
    let out = crop_center(&bm, 2, 2);
    assert_eq!(out.width, 2);
    assert_eq!(out.height, 2);
    let expected: Vec<u8> = vec![4, 5, 6, 7, 8, 9, 10, 11, 20, 21, 22, 23, 24, 25, 26, 27];
    assert_eq!(out.rgba, expected);
}
