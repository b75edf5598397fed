//! Rank-1 Constraint System (R1CS) circuit model and configuration assembly.
//!
//! The crate models the shape of an arithmetic circuit — its constraints and
//! variable-count bookkeeping — together with the witness values that satisfy
//! it, and drives the fail-fast pipeline that assembles a circuit
//! configuration from externally loaded resources.

pub mod circuit;
pub mod codec;
pub mod config;
pub mod field;
pub mod input;
pub mod r1cs;
