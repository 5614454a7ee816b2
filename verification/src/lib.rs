//! Two-dimensional finite-element analysis for linear-elastic parts.
//!
//! Floating-point scalars are carried through the library as their IEEE-754
//! binary64 bit patterns (`u64`); comparisons on them are implemented and
//! verified here at the bit level, while floating-point arithmetic is left to
//! the unverified shell around the library.

pub mod assembler;
pub mod bc;
pub mod datatypes;
pub mod driver;
pub mod error;
pub mod fp;
pub mod geo;
pub mod geometry;
pub mod input;
pub mod mesher;
pub mod post_processor;
pub mod solver;
pub mod text;
