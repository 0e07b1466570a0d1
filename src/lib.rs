//! A circuit that proves `result = base^exponent` over the Pallas base field:
//! its trace layout, transition constraint, witness assignment and public binding.
pub mod field;
pub mod trace;
pub mod laws;
