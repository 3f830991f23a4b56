//! The card-script language: selectors and parameter lists.

pub mod compiled;
pub mod lowering;
pub mod misc;
pub mod params;
pub mod selector;
pub mod words;
