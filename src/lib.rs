//! Compositing of two RGBA rasters: blend-mode naming and dispatch, option
//! parsing, and the pixel engine that applies per-pixel operations over a
//! whole image while keeping the buffer layout and the alpha policy.

pub mod text;
pub mod mode;
pub mod raster;
pub mod options;
