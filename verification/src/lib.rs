//! Watches a chain node for new blocks and refreshes the state of a set of
//! liquidity pools on each of them.

pub mod error;
pub mod json;
pub mod pool;
pub mod snapshot;
pub mod watcher;
