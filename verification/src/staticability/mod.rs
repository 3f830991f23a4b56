//! Static abilities: what they allow, ask for and forbid.

pub mod activations;
pub mod attack;
pub mod common;
pub mod may_play;
pub mod plot;
pub mod prevention;
