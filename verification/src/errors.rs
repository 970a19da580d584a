//! The reasons for which the library rejects an input.

use vstd::prelude::*;

verus! {

/// Why a configuration, a record or an event was rejected.
#[derive(Debug, Clone, Copy, PartialEq, Eq, Structural)]
pub enum PoolSyncError {
    /// No network was chosen for the run.
    ChainNotSet,
    /// A chosen pool family does not exist on the chosen network.
    UnsupportedPoolType,
    /// A record of one pool family was offered for a pool type of the other.
    MismatchedPoolType,
    /// A bulk-read record or an event payload does not have the expected shape.
    MalformedRecord,
    /// An event would take more liquidity away than is there.
    LiquidityUnderflow,
    /// An event would push a liquidity quantity beyond 128 bits.
    LiquidityOverflow,
    /// A tick cannot be divided by the pool's tick spacing.
    InvalidTickSpacing,
}

} // verus!
