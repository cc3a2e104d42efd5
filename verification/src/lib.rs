//! Read-only queries over a chain-history store, written as pure decision
//! logic: every function here takes plain values and says which store read
//! comes next or what the final answer is. A caller owns the store handle,
//! performs the reads and feeds the replies back.

pub mod analysis;
pub mod archive;
pub mod databases;
pub mod demo;
pub mod error;
pub mod model;
pub mod primitives;
pub mod range;
pub mod scan_ct;
pub mod selftest;
pub mod state;
pub mod store;
