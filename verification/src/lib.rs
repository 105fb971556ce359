//! Benchmark pipeline for Foundry projects: per-project configuration,
//! the clone/build/test stage state machine, and result aggregation.
//!
//! The library holds the verified logic. Subprocess execution, file I/O
//! and terminal output live in the surrounding application, which feeds
//! their outcomes back into the stage functions defined here.

pub mod benchmark;
pub mod cmd;
pub mod config;
pub mod ui;
pub mod utils;

