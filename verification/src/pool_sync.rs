//! A synchronisation run: its configuration and the decisions of its rounds.
//!
//! A run repeats rounds. Each round has a last block, the configured one or
//! the ledger's head; every protocol whose checkpoint lies before it is
//! brought up to it, one protocol after the other. The run ends with the
//! round that finds nothing to do, or as soon as every protocol has reached
//! the configured last block.

use vstd::prelude::*;
use crate::builder::PoolSyncBuilder;
use crate::cache::PoolCache;
use crate::chain::Chain;
use crate::pools::{Pool, PoolType};

verus! {

/// The configuration of a synchronisation run.
#[derive(Debug, Clone)]
pub struct PoolSync {
    /// The protocols to synchronise, each once.
    pub fetchers: Vec<PoolType>,
    /// The network to synchronise on.
    pub chain: Chain,
    /// The ceiling on remote calls in flight.
    pub rate_limit: u64,
    /// The block to start from, where the checkpoint lies before it.
    pub start_block: Option<u64>,
    /// The block to stop at; the ledger's head where none is given.
    pub end_block: Option<u64>,
}

/// The first block of a protocol's round: the configured start where the
/// checkpoint has not reached it yet, else the block after the checkpoint.
/// There is none after the last block that a block number can name.
pub open spec fn round_start_of(start_block: Option<u64>, last_synced_block: u64) -> Option<u64> {
    if start_block is Some && last_synced_block < start_block->Some_0 {
        start_block
    } else if last_synced_block == u64::MAX {
        None
    } else {
        Some((last_synced_block + 1) as u64)
    }
}

/// The blocks that a protocol's round covers, first and last included; none
/// where the protocol is caught up with the round's last block.
pub open spec fn round_range_of(
    start_block: Option<u64>,
    last_synced_block: u64,
    end_block: u64,
) -> Option<(u64, u64)> {
    match round_start_of(start_block, last_synced_block) {
        Some(start) => if start <= end_block {
            Some((start, end_block))
        } else {
            None
        },
        None => None,
    }
}

/// Whether every protocol's checkpoint has reached the target block.
pub open spec fn all_reached(caches: Seq<PoolCache>, target: u64) -> bool {
    forall|i: int| 0 <= i < caches.len() ==> (#[trigger] caches[i]).last_synced_block >= target
}

/// Whether a round was the run's last: it found nothing to do, or a last
/// block is configured and every protocol has reached it.
pub open spec fn run_finished(worked: bool, end_block: Option<u64>, caches: Seq<PoolCache>) -> bool {
    !worked || (end_block is Some && all_reached(caches, end_block->Some_0))
}

/// The pools of all protocols, protocol after protocol, each protocol's
/// pools in the order of their discovery.
pub open spec fn pools_flattened(caches: Seq<PoolCache>) -> Seq<Pool>
    decreases caches.len(),
{
    if caches.len() == 0 {
        Seq::empty()
    } else {
        pools_flattened(caches.drop_last()) + caches.last().pools@
    }
}

/// A protocol that has completed a round has nothing left to do in a round
/// with the same last block: a run with a configured last block ends after
/// one round of work.
pub proof fn lemma_round_completes(start_block: Option<u64>, end_block: u64)
    ensures
        round_range_of(start_block, end_block, end_block) is None,
{
}

/// With no configured start, a round takes up where the checkpoint stands:
/// its first block is the one after the checkpoint, so two runs that share a
/// checkpoint cover every block once.
pub proof fn lemma_round_resumes(last_synced_block: u64, end_block: u64)
    requires
        last_synced_block < end_block,
    ensures
        round_range_of(None, last_synced_block, end_block) == Some(
            ((last_synced_block + 1) as u64, end_block),
        ),
{
}

impl PoolSync {
    /// A builder with nothing chosen yet.
    pub fn builder() -> (b: PoolSyncBuilder)
        ensures
            b.selected() == Seq::<PoolType>::empty(),
            b.chosen_chain() is None,
            b.chosen_rate_limit() is None,
            b.chosen_start_block() is None,
            b.chosen_end_block() is None,
    {
        PoolSyncBuilder::new()
    }

    /// The last block of a round: the configured one, else the ledger's
    /// head.
    pub fn round_end(&self, head: u64) -> (end: u64)
        ensures
            end == (match self.end_block {
                Some(configured) => configured,
                None => head,
            }),
    {
        match self.end_block {
            Some(configured) => configured,
            None => head,
        }
    }

    /// The first block of a protocol's round.
    pub fn round_start(&self, cache: &PoolCache) -> (start: Option<u64>)
        ensures
            start == round_start_of(self.start_block, cache.last_synced_block),
    {
        match self.start_block {
            Some(configured) => {
                if cache.last_synced_block < configured {
                    return Some(configured);
                }
            },
            None => {},
        }
        if cache.last_synced_block == u64::MAX {
            None
        } else {
            Some(cache.last_synced_block + 1)
        }
    }

    /// The blocks that a protocol's round covers, or none where the protocol
    /// is caught up.
    pub fn round_range(&self, cache: &PoolCache, end_block: u64) -> (range: Option<(u64, u64)>)
        ensures
            range == round_range_of(self.start_block, cache.last_synced_block, end_block),
    {
        match self.round_start(cache) {
            Some(start) => {
                if start <= end_block {
                    Some((start, end_block))
                } else {
                    None
                }
            },
            None => None,
        }
    }

    /// The next protocol that has work in the round, looking from place
    /// `from` on: its place among the checkpoints and the blocks to cover.
    /// None where every protocol from there on is caught up.
    pub fn next_to_sync(&self, caches: &Vec<PoolCache>, from: usize, end_block: u64) -> (next:
        Option<(usize, u64, u64)>)
        ensures
            match next {
                Some((index, start, end)) => {
                    &&& from <= index < caches@.len()
                    &&& round_range_of(
                        self.start_block,
                        caches@[index as int].last_synced_block,
                        end_block,
                    ) == Some((start, end))
                    &&& forall|i: int|
                        from <= i < index ==> round_range_of(
                            self.start_block,
                            (#[trigger] caches@[i]).last_synced_block,
                            end_block,
                        ) is None
                },
                None => forall|i: int|
                    from <= i < caches@.len() ==> round_range_of(
                        self.start_block,
                        (#[trigger] caches@[i]).last_synced_block,
                        end_block,
                    ) is None,
            },
    {
        let mut i: usize = from;
        while i < caches.len()
            invariant
                from <= i,
                forall|j: int|
                    from <= j < i && j < caches@.len() ==> round_range_of(
                        self.start_block,
                        (#[trigger] caches@[j]).last_synced_block,
                        end_block,
                    ) is None,
            decreases caches.len() - i,
        {
            match self.round_range(&caches[i], end_block) {
                Some((start, end)) => {
                    return Some((i, start, end));
                },
                None => {},
            }
            i += 1;
        }
        None
    }

    /// Tells whether every protocol's checkpoint has reached the target
    /// block.
    pub fn all_synced_to(caches: &Vec<PoolCache>, target: u64) -> (r: bool)
        ensures
            r == all_reached(caches@, target),
    {
        let mut i: usize = 0;
        while i < caches.len()
            invariant
                i <= caches.len(),
                forall|j: int| 0 <= j < i ==> (#[trigger] caches@[j]).last_synced_block >= target,
            decreases caches.len() - i,
        {
            if caches[i].last_synced_block < target {
                return false;
            }
            i += 1;
        }
        true
    }

    /// Tells after a round whether the run is over; `worked` says whether
    /// the round brought any protocol forward.
    pub fn is_finished(&self, worked: bool, caches: &Vec<PoolCache>) -> (r: bool)
        ensures
            r == run_finished(worked, self.end_block, caches@),
    {
        if !worked {
            return true;
        }
        match self.end_block {
            Some(target) => PoolSync::all_synced_to(caches, target),
            None => false,
        }
    }

    /// The checkpoints of a run that finds nothing persisted: one for each
    /// protocol, in the order of the configuration, each in its initial
    /// form.
    pub fn fresh_caches(&self) -> (caches: Vec<PoolCache>)
        ensures
            caches@.len() == self.fetchers@.len(),
            forall|i: int|
                0 <= i < caches@.len() ==> {
                    &&& (#[trigger] caches@[i]).pool_type == self.fetchers@[i]
                    &&& caches@[i].last_synced_block == 0
                    &&& caches@[i].is_initial_sync
                    &&& caches@[i].pools@ == Seq::<Pool>::empty()
                },
    {
        let mut caches: Vec<PoolCache> = Vec::new();
        let mut i: usize = 0;
        while i < self.fetchers.len()
            invariant
                i <= self.fetchers.len(),
                caches@.len() == i,
                forall|j: int|
                    0 <= j < i ==> {
                        &&& (#[trigger] caches@[j]).pool_type == self.fetchers@[j]
                        &&& caches@[j].last_synced_block == 0
                        &&& caches@[j].is_initial_sync
                        &&& caches@[j].pools@ == Seq::<Pool>::empty()
                    },
            decreases self.fetchers.len() - i,
        {
            caches.push(PoolCache::new(self.fetchers[i]));
            i += 1;
        }
        caches
    }

    /// The run's result: the pools of all protocols in one collection, and
    /// the last block of the run's last round as the last synced block.
    pub fn run_result(caches: Vec<PoolCache>, last_round_end: u64) -> (r: (Vec<Pool>, u64))
        ensures
            r.0@ == pools_flattened(caches@),
            r.1 == last_round_end,
    {
        (PoolSync::collect_pools(caches), last_round_end)
    }

    /// The pools of all protocols in one collection.
    pub fn collect_pools(caches: Vec<PoolCache>) -> (pools: Vec<Pool>)
        ensures
            pools@ == pools_flattened(caches@),
    {
        let mut caches: Vec<PoolCache> = caches;
        let ghost all = caches@;
        let mut pools: Vec<Pool> = Vec::new();
        let mut i: usize = 0;
        proof {
            assert(all.take(0) =~= Seq::empty());
        }
        while i < caches.len()
            invariant
                i <= caches.len(),
                caches@.len() == all.len(),
                forall|j: int| i <= j < all.len() ==> #[trigger] caches@[j] == all[j],
                pools@ == pools_flattened(all.take(i as int)),
            decreases caches.len() - i,
        {
            proof {
                assert(all.take(i + 1).drop_last() =~= all.take(i as int));
                assert(all.take(i + 1).last() == all[i as int]);
            }
            let ghost before = caches@;
            let cache: &mut PoolCache = &mut caches[i];
            pools.append(&mut cache.pools);
            i += 1;
        }
        proof {
            assert(all.take(i as int) =~= all);
        }
        pools
    }
}

} // verus!
