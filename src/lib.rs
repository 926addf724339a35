//! Turns a blockchain state-test fixture into a reproducible benchmark
//! workload: the world state an executor starts from, a transaction
//! template, and a batch of transactions expanded from that template under
//! an explicitly chosen policy.

pub mod words;
pub mod keyed;
pub mod state;
pub mod table;
pub mod fixture;
pub mod workload;
pub mod sweep;
