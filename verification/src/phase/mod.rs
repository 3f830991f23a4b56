//! Phases, and what happens in the untap step.

pub mod extra_phase;
pub mod untap;
