//! Constraint composition for circle-STARK style proofs: the prime field and its
//! secure extension, circle-group geometry, LogUp relations and the
//! multi-component aggregators.
pub mod fields;
pub mod circle;
pub mod poly;
pub mod constraints;
pub mod fibonacci;
pub mod components;
pub mod relation;
pub mod evaluator;
