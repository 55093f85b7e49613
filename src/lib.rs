//! A local parameter-sweep task runner's core: a bounded-concurrency
//! scheduler that hands tasks to worker processes and counts their exits,
//! and the lookup of the project root among a directory's ancestors.

pub mod model;
pub mod root;
pub mod laws;
pub mod scheduler;
