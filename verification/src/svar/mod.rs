//! Script variables: the numbers that card scripts compute from the state of the game.

pub mod cost_amount;
pub mod count;
pub mod count_body;
pub mod defined;
pub mod eval;
pub mod facts;
pub mod folds;
pub mod lists;
pub mod math;
pub mod party;
pub mod scene;
pub mod simple;
