//! Contour-map core: polyline simplification and vector rendering.
//!
//! The library transforms elevation-contour feature collections in two
//! steps: a tolerance-driven vertex decimation of every polyline
//! (effective-area point removal), and a bounding-box-driven scale
//! transform that turns the collection into a fixed-size line drawing.
//! Coordinates are fixed-point integers; parsing, serialization and all
//! file or network traffic live outside this crate.

pub mod geometry;
pub mod laws;
pub mod render;
pub mod simplify;
