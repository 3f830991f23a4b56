//! Replacement effects: what happens to an event before it happens.

pub mod ability_walk;
pub mod apply;
pub mod collect;
pub mod damage_batch;
pub mod damage_buffer;
pub mod damage_map;
pub mod damage_run;
pub mod damage_steps;
pub mod effect;
pub mod event;
pub mod handler;
pub mod kinds;
pub mod replace_damage;
pub mod replace_explore;
pub mod replace_lose_mana;
pub mod replace_moved;
pub mod replace_token;
pub mod rules;
pub mod value;
