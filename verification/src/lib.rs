//! A procedural 3D maze engine: a randomized skeleton generator, a geometry
//! realizer that turns skeleton nodes into renderable environments, and a
//! navigation system that decides room handoffs and wall blocking.
//!
//! All geometry is carried in fixed-point coordinates (see [`fixed`]): every
//! scalar is an `i64` holding `SCALE` subunits per world unit, so the whole
//! engine is exact integer arithmetic with explicit contracts.

pub mod bbox;
pub mod environment;
pub mod face;
pub mod fixed;
pub mod generate;
pub mod maze;
pub mod nav;
pub mod params;
pub mod ray;
pub mod realize;
pub mod rng;
pub mod skeleton;
pub mod trig;
pub mod vec3;
