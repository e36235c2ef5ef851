//! Verified core of a block indexer for a Tendermint chain.
//!
//! The indexer polls a chain node for new blocks, stores what it finds in
//! three append-only tables, and answers two aggregate queries. This
//! library holds the decisions of that pipeline: which heights
//! a poll cycle covers and how they are cut into chunks, how chain data is
//! shaped into records and rows, and what the store accepts and returns.
//! Network and database traffic is left to the program around it.

pub mod api;
pub mod chunks;
pub mod data;
pub mod db;
pub mod encoding;
pub mod error;
pub mod indexer;
pub mod tables;
pub mod utils;
