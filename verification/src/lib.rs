//! A chess move-search engine: material evaluation, depth-limited minimax and
//! iterative deepening under a time budget.
//!
//! Positions, legal moves and game status come from the `chess` crate; the
//! search built on top of them is verified against its mathematical model.

pub mod pieces;
pub mod placement;
pub mod position;
pub mod evaluate;
pub mod minimax;
pub mod clock;
pub mod search;
