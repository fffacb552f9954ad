//! Stepped ranges over the fixed-width integer types: exclusive or
//! inclusive bounds, forward or backward direction, and step magnitudes
//! greater than one, with all boundary arithmetic carried out in a
//! widened signed domain so that ranges touching a type's extreme
//! values never overflow.
//!
//! `range_spec` holds the mathematical model: which values a range
//! yields and the modular arithmetic of the stopping sentinel.
//! `basic_range` holds the capability traits, the descriptor builder
//! and the iterator; the `iter_impls_*` and `step_impls` modules
//! instantiate the traits for every supported width. `indexed_range`
//! decorates the values with running positions.

pub mod basic_range;
pub mod indexed_range;
pub mod iter_impls_full;
pub mod iter_impls_narrow;
pub mod iter_impls_wide;
pub mod range_spec;
pub mod step_impls;
