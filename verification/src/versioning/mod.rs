//! Structural diff and patch over intermediate trees.

pub mod builder;
pub mod change;
pub mod commute;
pub mod difference;
pub mod graph;
pub mod grid;
pub mod keyed;
pub mod laws;
pub mod optimize;
pub mod patch;
pub mod replay;

pub use change::{Change, ChangeView};
pub use optimize::{DiffOptimizationHint, DiffOptions};
