//! The builder that assembles the configuration of a run.

use vstd::prelude::*;
use crate::chain::Chain;
use crate::errors::PoolSyncError;
use crate::pool_sync::PoolSync;
use crate::pools::PoolType;

verus! {

/// The rate limit of a run for which none is chosen: high enough never to
/// be reached.
pub const UNLIMITED_RATE: u64 = 10000;

/// Collects the choices for a run. A pool type that is chosen again is not
/// kept twice.
#[derive(Debug)]
pub struct PoolSyncBuilder {
    fetchers: Vec<PoolType>,
    chain: Option<Chain>,
    rate_limit: Option<usize>,
    start_block: Option<u64>,
    end_block: Option<u64>,
}

/// Whether every pool type of a sequence exists on the network.
pub open spec fn all_supported(chain: Chain, pool_types: Seq<PoolType>) -> bool {
    forall|i: int| 0 <= i < pool_types.len() ==> chain.spec_supported(#[trigger] pool_types[i])
}

/// The pool types chosen so far with one more choice: a type that is
/// already chosen is not chosen twice.
pub open spec fn with_pool(selected: Seq<PoolType>, pool_type: PoolType) -> Seq<PoolType> {
    if selected.contains(pool_type) {
        selected
    } else {
        selected.push(pool_type)
    }
}

/// The pool types chosen so far with a run of further choices, made one
/// after the other.
pub open spec fn with_pools(selected: Seq<PoolType>, pools: Seq<PoolType>) -> Seq<PoolType>
    decreases pools.len(),
{
    if pools.len() == 0 {
        selected
    } else {
        with_pool(with_pools(selected, pools.drop_last()), pools.last())
    }
}

impl PoolSyncBuilder {
    /// No pool type is chosen twice.
    #[verifier::type_invariant]
    spec fn each_type_once(self) -> bool {
        self.fetchers@.no_duplicates()
    }

    /// The pool types chosen so far, in the order of their first choice.
    pub closed spec fn selected(&self) -> Seq<PoolType> {
        self.fetchers@
    }

    /// The network chosen so far.
    pub closed spec fn chosen_chain(&self) -> Option<Chain> {
        self.chain
    }

    /// The rate limit chosen so far.
    pub closed spec fn chosen_rate_limit(&self) -> Option<usize> {
        self.rate_limit
    }

    /// The first block chosen so far.
    pub closed spec fn chosen_start_block(&self) -> Option<u64> {
        self.start_block
    }

    /// The last block chosen so far.
    pub closed spec fn chosen_end_block(&self) -> Option<u64> {
        self.end_block
    }

    /// Whether two builders hold the same choices apart from the pool types.
    pub open spec fn same_settings(&self, other: &PoolSyncBuilder) -> bool {
        &&& self.chosen_chain() == other.chosen_chain()
        &&& self.chosen_rate_limit() == other.chosen_rate_limit()
        &&& self.chosen_start_block() == other.chosen_start_block()
        &&& self.chosen_end_block() == other.chosen_end_block()
    }

    /// A builder with nothing chosen.
    pub fn new() -> (b: PoolSyncBuilder)
        ensures
            b.selected() == Seq::<PoolType>::empty(),
            b.chosen_chain() is None,
            b.chosen_rate_limit() is None,
            b.chosen_start_block() is None,
            b.chosen_end_block() is None,
            b.selected().no_duplicates(),
    {
        PoolSyncBuilder {
            fetchers: Vec::new(),
            chain: None,
            rate_limit: None,
            start_block: None,
            end_block: None,
        }
    }

    /// Chooses a pool type to synchronise.
    pub fn add_pool(self, pool_type: PoolType) -> (b: PoolSyncBuilder)
        ensures
            b.selected() == with_pool(self.selected(), pool_type),
            b.selected().no_duplicates(),
            b.same_settings(&self),
    {
        proof {
            use_type_invariant(&self);
        }
        let PoolSyncBuilder { fetchers, chain, rate_limit, start_block, end_block } = self;
        let mut fetchers: Vec<PoolType> = fetchers;
        let mut found: bool = false;
        let mut i: usize = 0;
        while i < fetchers.len()
            invariant
                i <= fetchers.len(),
                fetchers@ == self.fetchers@,
                found == exists|j: int| 0 <= j < i && fetchers@[j] == pool_type,
            decreases fetchers.len() - i,
        {
            if fetchers[i] == pool_type {
                found = true;
            }
            i += 1;
        }
        if !found {
            fetchers.push(pool_type);
            assert(fetchers@.no_duplicates()) by {
                assert forall|x: int, y: int|
                    0 <= x < fetchers@.len() && 0 <= y < fetchers@.len() && x != y implies fetchers@[x]
                    != fetchers@[y] by {
                    if x < self.fetchers@.len() && y < self.fetchers@.len() {
                        assert(self.fetchers@[x] != self.fetchers@[y]);
                    }
                }
            }
        }
        PoolSyncBuilder { fetchers, chain, rate_limit, start_block, end_block }
    }

    /// Chooses several pool types to synchronise.
    pub fn add_pools(self, pools: &[PoolType]) -> (b: PoolSyncBuilder)
        ensures
            b.selected() == with_pools(self.selected(), pools@),
            b.selected().no_duplicates(),
            b.same_settings(&self),
    {
        proof {
            use_type_invariant(&self);
        }
        let mut b: PoolSyncBuilder = self;
        let mut i: usize = 0;
        proof {
            assert(pools@.take(0) =~= Seq::empty());
        }
        while i < pools.len()
            invariant
                i <= pools.len(),
                b.selected() == with_pools(self.selected(), pools@.take(i as int)),
                b.selected().no_duplicates(),
                b.same_settings(&self),
            decreases pools.len() - i,
        {
            proof {
                assert(pools@.take(i + 1).drop_last() =~= pools@.take(i as int));
                assert(pools@.take(i + 1).last() == pools@[i as int]);
            }
            b = b.add_pool(pools[i]);
            i += 1;
        }
        proof {
            assert(pools@.take(i as int) =~= pools@);
        }
        b
    }

    /// Chooses the network to synchronise on.
    pub fn chain(self, chain: Chain) -> (b: PoolSyncBuilder)
        ensures
            b.chosen_chain() == Some(chain),
            b.selected().no_duplicates(),
            b.selected() == self.selected(),
            b.chosen_rate_limit() == self.chosen_rate_limit(),
            b.chosen_start_block() == self.chosen_start_block(),
            b.chosen_end_block() == self.chosen_end_block(),
    {
        proof {
            use_type_invariant(&self);
        }
        PoolSyncBuilder { fetchers: self.fetchers, chain: Some(chain), rate_limit: self.rate_limit, start_block: self.start_block, end_block: self.end_block }
    }

    /// Chooses the ceiling on remote calls in flight.
    pub fn rate_limit(self, rate_limit: usize) -> (b: PoolSyncBuilder)
        ensures
            b.chosen_rate_limit() == Some(rate_limit),
            b.selected().no_duplicates(),
            b.selected() == self.selected(),
            b.chosen_chain() == self.chosen_chain(),
            b.chosen_start_block() == self.chosen_start_block(),
            b.chosen_end_block() == self.chosen_end_block(),
    {
        proof {
            use_type_invariant(&self);
        }
        PoolSyncBuilder { fetchers: self.fetchers, chain: self.chain, rate_limit: Some(rate_limit), start_block: self.start_block, end_block: self.end_block }
    }

    /// Chooses the block to start from.
    pub fn start_block(self, start_block: u64) -> (b: PoolSyncBuilder)
        ensures
            b.chosen_start_block() == Some(start_block),
            b.selected() == self.selected(),
            b.selected().no_duplicates(),
            b.chosen_chain() == self.chosen_chain(),
            b.chosen_rate_limit() == self.chosen_rate_limit(),
            b.chosen_end_block() == self.chosen_end_block(),
    {
        proof {
            use_type_invariant(&self);
        }
        PoolSyncBuilder { fetchers: self.fetchers, chain: self.chain, rate_limit: self.rate_limit, start_block: Some(start_block), end_block: self.end_block }
    }

    /// Chooses the block to stop at.
    pub fn end_block(self, end_block: u64) -> (b: PoolSyncBuilder)
        ensures
            b.chosen_end_block() == Some(end_block),
            b.selected() == self.selected(),
            b.selected().no_duplicates(),
            b.chosen_chain() == self.chosen_chain(),
            b.chosen_rate_limit() == self.chosen_rate_limit(),
            b.chosen_start_block() == self.chosen_start_block(),
    {
        proof {
            use_type_invariant(&self);
        }
        PoolSyncBuilder { fetchers: self.fetchers, chain: self.chain, rate_limit: self.rate_limit, start_block: self.start_block, end_block: Some(end_block) }
    }

    /// Chooses the blocks to start from and to stop at.
    pub fn block_range(self, start_block: u64, end_block: u64) -> (b: PoolSyncBuilder)
        ensures
            b.chosen_start_block() == Some(start_block),
            b.chosen_end_block() == Some(end_block),
            b.selected().no_duplicates(),
            b.selected() == self.selected(),
            b.chosen_chain() == self.chosen_chain(),
            b.chosen_rate_limit() == self.chosen_rate_limit(),
    {
        proof {
            use_type_invariant(&self);
        }
        PoolSyncBuilder {
            fetchers: self.fetchers,
            chain: self.chain,
            rate_limit: self.rate_limit,
            start_block: Some(start_block),
            end_block: Some(end_block),
        }
    }

    /// Turns the choices into the configuration of a run. A run needs a
    /// network, and every chosen pool type must exist on it; where no rate
    /// limit is chosen the run gets one that is never reached.
    pub fn build(self) -> (r: Result<PoolSync, PoolSyncError>)
        ensures
            match r {
                Ok(sync) => {
                    &&& sync.fetchers@.no_duplicates()
                    &&& self.chosen_chain() == Some(sync.chain)
                    &&& all_supported(sync.chain, self.selected())
                    &&& sync.fetchers@ == self.selected()
                    &&& sync.rate_limit == (match self.chosen_rate_limit() {
                        Some(limit) => limit as u64,
                        None => UNLIMITED_RATE,
                    })
                    &&& sync.start_block == self.chosen_start_block()
                    &&& sync.end_block == self.chosen_end_block()
                },
                Err(e) => if self.chosen_chain() is None {
                    e == PoolSyncError::ChainNotSet
                } else {
                    e == PoolSyncError::UnsupportedPoolType && !all_supported(
                        self.chosen_chain()->Some_0,
                        self.selected(),
                    )
                },
            },
    {
        proof {
            use_type_invariant(&self);
        }
        let chain: Chain = match self.chain {
            Some(chain) => chain,
            None => {
                return Err(PoolSyncError::ChainNotSet);
            },
        };
        let mut i: usize = 0;
        while i < self.fetchers.len()
            invariant
                i <= self.fetchers.len(),
                forall|j: int| 0 <= j < i ==> chain.spec_supported(#[trigger] self.fetchers@[j]),
            decreases self.fetchers.len() - i,
        {
            if !chain.supported(&self.fetchers[i]) {
                return Err(PoolSyncError::UnsupportedPoolType);
            }
            i += 1;
        }
        let rate_limit: u64 = match self.rate_limit {
            Some(limit) => limit as u64,
            None => UNLIMITED_RATE,
        };
        Ok(
            PoolSync {
                fetchers: self.fetchers,
                rate_limit,
                chain,
                start_block: self.start_block,
                end_block: self.end_block,
            },
        )
    }
}

} // verus!
