//! Terminal image rendering engine.
//!
//! Translates decoded raster images into terminal output, either as plain
//! styled half-block glyphs or as one of several terminal graphics escape
//! protocols (sixel run-length encoding, kitty-style chunked transfer,
//! iTerm2-style inline images). Encoded payloads are cached per
//! (resize policy, area, source fingerprint) so that rendering a frame is
//! cheap when nothing changed.

pub mod buffer;
pub mod escape;
pub mod geometry;
pub mod halfblocks;
pub mod img;
pub mod iterm2;
pub mod kitty;
pub mod laws;
pub mod protocol;
pub mod sixel;
pub mod source;

pub use geometry::{FontSize, Rect, Resize, Rgb8};
pub use img::Img;
pub use protocol::{FixedBlock, Protocol, StatefulBlock, StatefulProtocol};
pub use source::ImageSource;
