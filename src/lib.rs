//! Pixel compositing and effects engine for photo frames: expanded canvases,
//! rounded corners, scale-adaptive shadows, blurred aspect-fill backdrops and
//! supersampled text layers, all over a plain RGBA8 raster; with the keys of
//! the shared font and logo tables and the cleanup of the camera strings
//! printed on a frame.

pub mod pixel;
pub mod compositor;
pub mod imaging;
pub mod corners;
pub mod blur;
pub mod shadow;
pub mod backdrop;
pub mod text;
pub mod effects;
pub mod resources;
pub mod models;
pub mod naming;
pub mod params;
pub mod parser;
