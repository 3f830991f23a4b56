//! Paying mana costs: symbols, pools, sources of mana and how they are chosen.

pub mod ability;
pub mod ai_sources;
pub mod apply;
pub mod atoms;
pub mod auto_tap;
pub mod autopay;
pub mod candidates;
pub mod convoke;
pub mod cost;
pub mod cost_parts;
pub mod masks;
pub mod paying;
pub mod pool;
pub mod prefer;
pub mod probe;
pub mod probe_choice;
pub mod produce;
pub mod prompts;
pub mod questions;
pub mod rank;
pub mod riders;
pub mod shards;
pub mod sources;
