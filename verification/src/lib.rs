//! Variance examples: values that flow through coercions between lifetimes
//! keep their content, a handler for strings of any lifetime serves where one
//! for `'static` strings is expected, and writes through `&mut` land in the
//! borrowed place.

pub mod contravariance;
pub mod covariance;
pub mod invariance;
pub mod phantom;
