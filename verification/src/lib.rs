//! A IIIF Image API 3.0 (level 0) image server core.
//!
//! The crate holds the decisions of the server as verified functions on plain
//! values: the grammar of request paths, the resolution of region and size
//! parameters against an image, the conditional-GET rule, the shape of HTTP
//! responses and of the `info.json` document, and the bookkeeping of the
//! decode and encode workers of the transcoding pipeline. Sockets, files,
//! codecs and the async runtime stay with the program that links this crate.

pub mod decimal;
pub mod http_date;
pub mod iiif;
pub mod image;
pub mod storage;
pub mod text;

