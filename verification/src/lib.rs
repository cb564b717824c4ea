//! Randomized, budget-constrained file selection.
//!
//! The library verifies the core of a tool that fills a fixed byte budget
//! with a random sample of files drawn from one or more source trees:
//! the recursive discovery traversal and the selection-and-copy loop.
//! Filesystem access itself happens outside the library; the verified
//! state machines here consume plain events (a path's metadata kind, the
//! result of a copy) and decide what happens next.

pub mod allocator;
pub mod discovery;
pub mod model;
pub mod outcome;
mod rng;
