//! A single-user task tracker: a store of tasks with one focused task at a
//! time, a scoring heuristic that ranks pending work by idle time and topical
//! batching, sorted views over the store, and time-based housekeeping sweeps.
pub mod types;
pub mod score;
pub mod domain;
pub mod housekeeping;
pub mod commands;
pub mod persistence;
