//! What holds of the operations of the engine as a whole, stated by what goes in and what comes out.

pub mod amounts;
pub mod batches;
pub mod changes;
pub mod convoke;
pub mod counting;
pub mod effects;
pub mod histories;
pub mod lookups;
pub mod numbers;
pub mod operators;
pub mod probing;
pub mod reading;
pub mod sources;
pub mod spending;
pub mod statics;
pub mod triggers;
pub mod turns;
