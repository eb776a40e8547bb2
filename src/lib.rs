//! A harness for numbered puzzle levels: it resolves input and output files by
//! naming convention, splits and renders line files, dispatches a level to its
//! registered solver, validates a result against the level's example, and plans
//! the batch generation of every other sub-input. A run is a session that asks
//! its caller for each piece of outside work in turn.
pub mod batch;
pub mod cli;
pub mod error;
pub mod lines;
pub mod paths;
pub mod session;
pub mod solver;
pub mod validate;
