//! Rules engine for a trading card game: card-script parsing, static abilities, triggers,
//! replacement effects, script variables and automatic mana payment.

pub mod game;
pub mod laws;
pub mod lists;
pub mod mana;
pub mod ordered_map;
pub mod parsing;
pub mod phase;
pub mod replacement;
pub mod setup;
pub mod sorting;
pub mod spell;
pub mod staticability;
pub mod svar;
pub mod text;
pub mod trigger;
pub mod types;
