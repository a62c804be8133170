//! Shape recognition for freehand pointer traces.
//!
//! A trace is the ordered list of pointer samples of one gesture. The
//! classifier measures it (pairwise distances, distances to the centroid,
//! offsets from a line) and labels it a circle, a line, an ellipse, or
//! unknown, with a confidence percentage.
pub mod geometry;
pub mod shape;
pub mod stats;
pub mod recording;
pub mod laws;
