//! Depth and wireframe rasterization of triangle meshes onto a pixel grid.
//!
//! - `space`: window space, the view volume, and the viewport transform to pixels.
//! - `raster`: triangle setup, the barycentric inside test, and the nearest-wins update.
//! - `grid`: the depth buffer, an `array2d::Array2D` of depths.
//! - `image`: shading of the finished depth buffer into RGBA bytes.
//! - `args`: the command line.

pub mod args;
pub mod grid;
pub mod image;
pub mod raster;
pub mod space;
