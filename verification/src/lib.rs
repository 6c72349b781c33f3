//! A small offline ray tracer over fixed-point arithmetic.
//!
//! Every geometric quantity is a fixed-point number: an `i64` counting
//! multiples of 1/[`fixed::SCALE`].  All arithmetic saturates at
//! [`fixed::MAX_RAW`] and truncates quotients toward zero, so every
//! operation is total and its result is pinned exactly by the
//! specification functions in [`fixed`].

pub mod fixed;
pub mod image;
pub mod laws;
pub mod material;
pub mod render;
pub mod scene;
pub mod traits;

pub use crate::fixed::{almost_equal_with_epsilon, EPSILON, SCALE};
pub use crate::image::{image_to_file, Image};
pub use crate::material::Color;
pub use crate::render::render;
pub use crate::scene::{
    closest_intersection, posunit_to_unit, trace_ray, Camera, Hit, Intersection, Radians, Ray,
    Sphere, UnitVector, Vector,
};
pub use crate::traits::AlmostEqual;
