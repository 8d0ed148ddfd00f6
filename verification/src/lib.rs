//! Glyph-to-solid compilation pipeline: decomposes font glyph outlines into
//! closed contours of typed curves, centers and orients them with exact
//! integer arithmetic, compiles them into kernel-ready edge descriptions, and
//! drives the hole-resolving fold and pairwise cross-shape composition over a
//! character grid. All coordinates are fixed-point integers; the unverified
//! shell converts to the solid-modeling kernel's representation at the edge.

pub mod builder;
pub mod compile;
pub mod curve;
pub mod driver;
pub mod errors;
pub mod geometry;
pub mod pipeline;
pub mod solid;
pub mod topology;
