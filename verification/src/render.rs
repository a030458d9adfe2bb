//! From a decoded glyph to the path that a rasterizer draws.

pub mod outline;
pub mod render_error;
