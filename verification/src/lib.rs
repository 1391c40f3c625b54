//! Core of a physically based path tracer, with its laws proved: axes,
//! points, vectors and boxes in the plane, film tiling and pixel offsets,
//! matrices and transformations as data, BxDF kinds, radical-inverse
//! sequences and the state of the Halton and random samplers.
#![allow(non_snake_case)]

pub mod axis;
pub mod bbox;
pub mod common;
pub mod film;
pub mod fresnel;
pub mod matrix;
pub mod vector;
pub mod primes;
pub mod reflection;
pub mod sampler_halton;
pub mod sampler_random;
pub mod texture;
pub mod transform;
pub mod tree;
