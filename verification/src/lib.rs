//! A small Monte-Carlo path tracer, verified end to end.
//!
//! Scalars are binary fixed-point numbers (`fixed::Fx`), so every arithmetic
//! step has an exact integer meaning that the verifier can reason about.
//! Randomness is threaded explicitly through a seedable generator
//! (`rng::Prng`), which makes a whole render a deterministic function of its
//! seed and configuration.

pub mod camera;
pub mod config;
pub mod fixed;
pub mod render;
pub mod hittable;
pub mod hittable_list;
pub mod materials;
pub mod ray;
pub mod rng;
pub mod sampling;
pub mod scene;
pub mod sphere;
pub mod vec3;
