//! Configuration of the application, and the check of the height it is
//! asked to start from.

use crate::error::IndexerError;
use vstd::prelude::*;

verus! {

/// Config struct for the application
#[derive(Debug, Clone, PartialEq, Eq)]
pub struct Config {
    pub db: DBConfig,
    pub indexer: IndexerConfig,
}

/// Database configuration
#[derive(Debug, Clone, PartialEq, Eq)]
pub struct DBConfig {
    pub url: String,
}

/// Indexer configuration
#[derive(Debug, Clone, PartialEq, Eq)]
pub struct IndexerConfig {
    pub rpc_url: String,
    /// Seconds between two polls of the chain
    pub fetch_interval: u64,
}

/// Accepts a height to start indexing from: the heights above zero.
pub fn check_start_height(height: i64) -> (res: Result<i64, IndexerError>)
    ensures
        height > 0 ==> res == Ok::<i64, IndexerError>(height),
        height <= 0 ==> res == Err::<i64, IndexerError>(IndexerError::InvalidHeight(height)),
{
    if height > 0 {
        Ok(height)
    } else {
        Err(IndexerError::InvalidHeight(height))
    }
}

} // verus!
