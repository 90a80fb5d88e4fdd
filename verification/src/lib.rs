//! A recursive Monte-Carlo ray tracer over saturating fixed-point arithmetic.
pub mod camera;
pub mod color;
pub mod dielectric;
pub mod fixed;
pub mod hit_record;
pub mod hittable;
pub mod hittable_list;
pub mod image;
pub mod interval;
pub mod lambertian;
pub mod material;
pub mod metal;
pub mod ray;
pub mod rng;
pub mod sphere;
pub mod trig;
pub mod vec3;
