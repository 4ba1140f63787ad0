//! A software (CPU-only) triangle rasterization pipeline.
//!
//! The pipeline turns lists of 3-D vertices into colored pixels in a frame
//! buffer, with per-pixel depth testing and a fixed family of per-fragment
//! shading functions.  All geometry and shading arithmetic is carried out in
//! an exact decimal fixed-point format: a quantity of one unit is stored as
//! the integer 1000 (thousandths), so every numeric constant of the shading
//! rules (thresholds such as 0.5, zoom factors, time scales) is represented
//! exactly.  Windowing, model loading, image decoding and procedural-noise
//! generation are external collaborators: callers sample noise themselves and
//! hand the sampled values in, so the whole pipeline is a deterministic
//! function of its inputs.

pub mod fixed;
pub mod color;
pub mod geom;
pub mod vertex;
pub mod fragment;
pub mod transform;
pub mod framebuffer;
pub mod raster;
pub mod shaders;
pub mod render;
pub mod texture;

pub use color::Color;
