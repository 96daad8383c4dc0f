//! A Monte Carlo path tracer over fixed-point arithmetic.
//!
//! Scene geometry, rays and colours are stored as `i64` fixed-point values
//! (multiples of `1/SCALE`); the ray/triangle and ray/box intersection
//! decisions are computed with exact wide-integer arithmetic, so the
//! geometric contracts are exact statements about the integers involved.

pub mod bmp;
pub mod bounding;
pub mod colour;
pub mod coordinates;
pub mod fixed;
pub mod image;
pub mod laws;
pub mod material;
pub mod object;
pub mod polygon;
pub mod progress;
pub mod scene;
pub mod ray;
pub mod vector;
