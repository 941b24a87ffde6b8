//! Core of a software rasterization pipeline stage: frustum clipping of a
//! clip-space triangle into a convex polygon, plus the integer-side helpers of
//! rasterization setup (bounding-box clamping, color-word packing) and the
//! window configuration record.
//!
//! The polygon-clipping logic here is exact and fully specified: it works on
//! an abstract vertex payload together with the per-vertex half-space
//! classification and the per-edge intersection vertices, which a driver
//! computes from the homogeneous coordinates.

pub mod clip;
pub mod color;
pub mod config;
pub mod raster;
