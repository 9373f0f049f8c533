//! Geotechnical core: a layered-soil stratigraphy model with stress
//! integration, a depth-aligned idealization engine that merges several field
//! experiments into one design profile, a bounded bisection root solver, and
//! the validation primitives they share.
//!
//! Physical quantities are carried as scaled integers: lengths and depths in
//! thousandths of a metre, unit weights in thousandths of a tonne per cubic
//! metre, measured values in thousandths of their base unit. Stresses, being
//! products of a unit weight and a length, come out in millionths of a tonne
//! per square metre.
pub mod aggregate;
pub mod bearing_capacity;
pub mod effective_depth;
pub mod enums;
pub mod helper;
pub mod models;
pub mod soil_coefficient;
pub mod text;
pub mod validation;
