//! The verified core of a pipeline that solves a post-flop poker scenario and
//! writes out the strategy tree.
//!
//! A job names two ranges, a board, a pot, a stack and the sizings of bets
//! and raises. The pipeline turns it into a canonical scenario, builds the
//! betting abstraction, has a solver work on the game until the
//! exploitability is low enough or the iterations are used up, and walks the
//! solved game to rebuild an explicit tree of strategies.
//!
//! The solver is not part of this crate. Wherever the pipeline needs it, the
//! crate decides what is to be done next and is told what came of it:
//! [`solve::SolveRun`] for the solve and [`walk::TreeWalker`] for the walk.
//!
//! - [`card`]: cards as numbers and how they are written.
//! - [`scenario`]: from the fields of a job to a canonical scenario.
//! - [`document`]: the fields of a job out of a JSON document.
//! - [`abstraction`]: the sizings and thresholds of the betting abstraction.
//! - [`action_set`]: what each threshold means for a list of bet amounts.
//! - [`pipeline`]: planning a job, and the faults that end one.
//! - [`solve`]: when to iterate, when to measure, when to stop.
//! - [`tree`]: the strategy tree and the model of the game it is read from.
//! - [`walk`]: the walk that rebuilds the tree, one position at a time.
//! - [`walk_laws`]: what a walk yields when the game answers faithfully.
//! - [`mutex_like`]: a cell with exclusive access and no lock.

pub mod abstraction;
pub mod action_set;
pub mod card;
pub mod document;
pub mod mutex_like;
pub mod pipeline;
pub mod scenario;
pub mod solve;
pub mod tree;
pub mod walk;
pub mod walk_laws;
