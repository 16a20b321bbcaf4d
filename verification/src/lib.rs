//! Composition engine for recursive proof-carrying data: optional witness
//! containers selected at compile time, a synthesis driver, staged circuit
//! assembly, a circuit mesh, witnessed endoscaling and the fuse step.

pub mod circuit;
pub mod commitment;
pub mod curve;
pub mod driver;
pub mod field;
pub mod fuse;
pub mod mesh;
pub mod parallel;
pub mod perhaps;
pub mod point;
pub mod polynomial;
pub mod staging;
pub mod substitution;
pub mod util;
pub mod value_accumulator;
pub mod witnessed_endoscalar;
