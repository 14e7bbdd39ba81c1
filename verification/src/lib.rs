//! Verified core of a wallpaper thumbnail pipeline.
//!
//! The library covers the logic of producing fixed-size thumbnails from
//! arbitrary image files: deriving a stable on-disk cache name from a source
//! path, filtering a directory listing down to eligible image files, deciding
//! what a background worker does on a cache hit or miss (size guard, decode,
//! cover-resize, center-crop, re-encode), and maintaining the in-memory
//! texture cache that request handling and completion update.
//!
//! All file and channel I/O, the worker pool, and the display layer live
//! outside the library; they hand plain values in and take plain values back.
//! Paths and file names are carried as byte vectors.

pub mod bitmap;
pub mod cache_key;
pub mod image_ops;
pub mod pipeline;
pub mod scan;
pub mod texture_cache;
