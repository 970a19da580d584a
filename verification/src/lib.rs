//! Bookkeeping for decentralized-exchange liquidity pools: the pool records,
//! the transitions that fold ledger events into them, and the decisions of the
//! synchronisation rounds that keep a cached pool collection up to date.

pub mod builder;
pub mod cache;
pub mod chain;
pub mod errors;
pub mod events;
pub mod pool_sync;
pub mod pools;
pub mod primitives;
pub mod rpc;

pub use chain::Chain;
pub use errors::PoolSyncError;
pub use pool_sync::PoolSync;
pub use pools::pool_structures::v3_structure::UniswapV3Pool;
pub use pools::{Pool, PoolInfo, PoolType};
