//! A glyph texture atlas for text rendering.
//!
//! The library keeps a CPU-side coverage bitmap (the atlas), a queue of
//! pending text sections, and the list of screen quads produced by the most
//! recent update cycle.  Glyph shaping and rectangle packing are the job of
//! an external layout engine; this crate verifies the bookkeeping around it:
//! clipping glyph quads to a section's bounds, writing rasterized blocks into
//! the atlas, growing the atlas on overflow, and the dirty-flag protocol.
//!
//! All coordinates are fixed-point integers: a caller picks a scale (say 256
//! units per pixel) and converts once at the boundary.

mod atlas;
mod brush;
mod clip;

pub use atlas::Atlas;
pub use brush::{Color, CopyBlock, DrawQuad, LayoutOutcome, QueuedSection, TextBrush, Vertex};
pub use clip::Rect;
pub use clip::clip;
pub use clip::COORD_LIMIT;
