//! A constructive-solid-geometry (CSG) scene is linearized into a flat
//! instruction stream of numeric words, the one data shape a shading
//! substrate can receive as a uniform.  This crate holds both ends of that
//! protocol: the encoder that walks a scene description and emits the
//! stream, and the evaluator that replays the stream at a sample point to
//! reconstruct a signed distance, together with the ray-marching loop that
//! turns the distance field into pixel hits.
//!
//! All quantities are carried in signed 16.16 fixed point (the word `65536`
//! stands for one spatial unit), so every rule of the protocol is stated
//! and proved exactly over the integers.  The host-facing shell converts
//! words to `f32` at the uniform boundary.

pub mod codec;
pub mod eval;
pub mod fixed;
pub mod march;
pub mod scene;
pub mod shader;
