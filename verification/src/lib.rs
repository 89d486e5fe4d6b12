//! Verified core logic of a small collection of command-line tools: a stack
//! virtual machine with its assembler, a prime counter, a log searcher, a tiny
//! content-addressed version store, and the bookkeeping behind a chat client,
//! a telemetry server and a system monitor.

pub mod text;
pub mod vm;
pub mod assembler;
pub mod primes;
pub mod log_search;
pub mod store;
pub mod chat;
pub mod messages;
pub mod monitor;
