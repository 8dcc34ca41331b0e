//! Decision logic of a Nockchain pool miner.
//!
//! The library decides; it performs no I/O. It sizes the thread pool, builds
//! the nouns that are handed to the mining kernels, judges what the kernels
//! answer, and summarises benchmark runs and telemetry samples.

pub mod benchmark;
pub mod candidate;
pub mod effect;
pub mod hexadecimal;
pub mod miner;
pub mod noun;
pub mod telemetry;
pub mod threads;
