//! The verified core of a viewer for face-vertex meshes: reading the mesh
//! text, normalising its topology, synthesising vertex attributes, batching
//! faces into draw runs, decoding texture bitmaps and interpreting pointer
//! gestures.
//!
//! Coordinates are carried as IEEE 754 binary32 bit patterns, colours as
//! exact ratios; arithmetic on real numbers is left to the caller.

pub mod batch;
pub mod color;
pub mod gesture;
pub mod img_loader;
pub mod loader;
pub mod mat;
pub mod model;
