//! Triggers: when they fire, and what they hand to the ability that they put on the stack.

pub mod cast;
pub mod combat;
pub mod common;
pub mod damage;
pub mod players;
pub mod taps;
pub mod zones;
