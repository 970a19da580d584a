//! Supported networks and the protocols deployed on each of them.

use vstd::prelude::*;
use crate::pools::PoolType;

verus! {

/// A supported network.
#[derive(Debug, Copy, Clone, PartialEq, Eq, PartialOrd, Ord, Hash, Structural)]
pub enum Chain {
    /// The Mantle network.
    Mantle,
}

impl Chain {
    /// The protocols deployed on this network, as a predicate on pool types.
    pub open spec fn spec_supported(self, pool_type: PoolType) -> bool {
        match self {
            Chain::Mantle => pool_type == PoolType::UniswapV3 || pool_type == PoolType::MerchantMoe
                || pool_type == PoolType::Agni,
        }
    }

    /// Tells whether pools of the given type exist on this network.
    pub fn supported(&self, pool_type: &PoolType) -> (r: bool)
        ensures
            r == self.spec_supported(*pool_type),
    {
        match self {
            Chain::Mantle => match pool_type {
                PoolType::UniswapV3 => true,
                PoolType::MerchantMoe => true,
                PoolType::Agni => true,
            },
        }
    }

    /// The network's name, as used in file names and messages.
    pub fn name(&self) -> (s: &'static str)
        ensures
            s@ == "Mantle"@,
    {
        match self {
            Chain::Mantle => "Mantle",
        }
    }
}

} // verus!
