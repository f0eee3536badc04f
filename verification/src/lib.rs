//! Decisions of a command runner that gives a child process a wall-clock
//! budget and asks it to stop once the budget is spent.
//!
//! The crate holds the rules only: how a budget and a signal are read from
//! text, how long to pause between two liveness checks, what to do after each
//! observation of the child, and how the child's end becomes the runner's own
//! exit status. Starting the child, reading the clock, sleeping and delivering
//! the signal are left to the caller, which performs each [`supervisor::Action`]
//! and reports back an [`supervisor::Event`].

pub mod budget;
pub mod digits;
pub mod episode;
pub mod outcome;
pub mod signal;
pub mod span;
pub mod supervisor;
