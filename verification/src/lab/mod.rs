//! The logic of the bench programs: generated names, shadow filters, test patterns, timing.

pub mod filter_test;
pub mod laws;
pub mod names;
pub mod pattern;
pub mod shadow;
pub mod timing;
