//! Expansion of a catalog of haystacks, needles and substring searchers into
//! a uniquely named set of benchmarks.
//!
//! The crate decides which (input, query, implementation, mode, direction)
//! combinations are measured and what each measurement is called. It does
//! not time anything: a harness takes the resulting plan, runs each entry
//! and reports what it measured under the entry's name.

pub mod catalog;
pub mod laws;
pub mod matrix;
pub mod misc;
pub mod model;
pub mod name;
pub mod rank;
pub mod search;
pub mod suite;
pub mod text;
pub mod truth;

pub use crate::suite::all;
