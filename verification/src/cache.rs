//! The checkpoint kept for each protocol: the pools known so far and the
//! last block through which they are reconciled.

use vstd::prelude::*;
use crate::errors::PoolSyncError;
use crate::events::{PoolEvent, PoolLog};
use crate::pools::{Pool, PoolType, PoolView};
use crate::pools::pool_builder::pools_view;
use crate::pools::pool_same_ledger;
use crate::rpc::{
    events_of, lemma_events_of_concat, lemma_replay_keeps_family, lemma_split_run_ledger,
    pool_replayed, replay_logs,
};

verus! {

/// The checkpoint of one protocol.
#[derive(Debug, Clone)]
pub struct PoolCache {
    /// The last block through which the pools are reconciled.
    pub last_synced_block: u64,
    /// The protocol that the pools belong to.
    pub pool_type: PoolType,
    /// Whether the protocol has never been synchronised.
    pub is_initial_sync: bool,
    /// The pools, in the order of their discovery.
    pub pools: Vec<Pool>,
}

/// Whether a round's replay is accepted: by every known pool in the steady
/// state and by every new pool as an initial sync.
pub open spec fn round_accepted(known: Seq<PoolView>, fresh: Seq<PoolView>, logs: Seq<PoolLog>) -> bool {
    &&& forall|i: int| 0 <= i < known.len() ==> pool_replayed(#[trigger] known[i], logs, false) is Ok
    &&& forall|j: int| 0 <= j < fresh.len() ==> pool_replayed(#[trigger] fresh[j], logs, true) is Ok
}

/// The pools after an accepted round: the known pools replayed in the steady
/// state, then the new pools replayed as an initial sync.
pub open spec fn round_pools(known: Seq<PoolView>, fresh: Seq<PoolView>, logs: Seq<PoolLog>) -> Seq<
    PoolView,
> {
    Seq::new(
        known.len() + fresh.len(),
        |k: int|
            if k < known.len() {
                pool_replayed(known[k], logs, false)->Ok_0
            } else {
                pool_replayed(fresh[k - known.len()], logs, true)->Ok_0
            },
    )
}

/// Synchronising a range of blocks in two runs that share a cache leaves
/// the pool collection that one run leaves, in the same order and with the
/// same ledgers. The first run populates its pools as `at_half`; a single run
/// would populate the same pools at its end as `at_end`, with the same
/// ledger; `later` are the pools discovered in the second half, which
/// emitted nothing in the first. Where all three rounds are accepted, the
/// two collections have the same length, every pool of the first half has
/// the same tick records, bitmap and identity in both, and every later pool
/// is the same in every field.
pub proof fn lemma_two_runs_one_collection(
    at_half: Seq<PoolView>,
    at_end: Seq<PoolView>,
    later: Seq<PoolView>,
    first_logs: Seq<PoolLog>,
    second_logs: Seq<PoolLog>,
)
    requires
        at_half.len() == at_end.len(),
        forall|i: int| 0 <= i < at_half.len() ==> pool_same_ledger(#[trigger] at_half[i], at_end[i]),
        forall|j: int|
            0 <= j < later.len() ==> events_of(first_logs, (#[trigger] later[j]).address())
                == Seq::<PoolEvent>::empty(),
        round_accepted(Seq::empty(), at_half, first_logs),
        round_accepted(round_pools(Seq::empty(), at_half, first_logs), later, second_logs),
        round_accepted(Seq::empty(), at_end + later, first_logs + second_logs),
    ensures
        ({
            let split = round_pools(
                round_pools(Seq::empty(), at_half, first_logs),
                later,
                second_logs,
            );
            let single = round_pools(Seq::empty(), at_end + later, first_logs + second_logs);
            &&& split.len() == single.len()
            &&& forall|k: int|
                0 <= k < at_half.len() ==> pool_same_ledger(#[trigger] split[k], single[k])
            &&& forall|k: int| at_half.len() <= k < split.len() ==> #[trigger] split[k] == single[k]
        }),
{
    let none = Seq::<PoolView>::empty();
    let halfway = round_pools(none, at_half, first_logs);
    let split = round_pools(halfway, later, second_logs);
    let single = round_pools(none, at_end + later, first_logs + second_logs);
    assert forall|k: int| 0 <= k < at_half.len() implies pool_same_ledger(
        #[trigger] split[k],
        single[k],
    ) by {
        let p = at_half[k];
        let q = at_end[k];
        assert(pool_same_ledger(p, q));
        let a = p.address();
        assert(q.address() == a);
        assert((at_end + later)[k] == q);
        assert(pool_replayed(at_half[k], first_logs, true) is Ok);
        let h = pool_replayed(p, first_logs, true)->Ok_0;
        assert(halfway[k] == h);
        lemma_replay_keeps_family(p, events_of(first_logs, a), true);
        assert(h.address() == a);
        assert(pool_replayed(halfway[k], second_logs, false) is Ok);
        assert(pool_replayed((at_end + later)[k], first_logs + second_logs, true) is Ok);
        lemma_events_of_concat(first_logs, second_logs, a);
        lemma_split_run_ledger(p, q, events_of(first_logs, a), events_of(second_logs, a));
    }
    assert forall|k: int| at_half.len() <= k < split.len() implies #[trigger] split[k]
        == single[k] by {
        let j = k - at_half.len();
        let p = later[j];
        assert((at_end + later)[k] == p);
        lemma_events_of_concat(first_logs, second_logs, p.address());
        assert(events_of(first_logs, p.address()) + events_of(second_logs, p.address())
            =~= events_of(second_logs, p.address()));
    }
}

impl PoolCache {
    /// The checkpoint of a protocol that has never been synchronised: no
    /// pools, block zero, initial sync pending.
    pub fn new(pool_type: PoolType) -> (cache: PoolCache)
        ensures
            cache.pool_type == pool_type,
            cache.last_synced_block == 0,
            cache.is_initial_sync,
            cache.pools@ == Seq::<Pool>::empty(),
    {
        PoolCache { last_synced_block: 0, pool_type, is_initial_sync: true, pools: Vec::new() }
    }

    /// Closes a round: the newly discovered pools join the known ones, after
    /// them and in their order; the checkpoint moves to the round's last
    /// block; and the initial sync is over.
    pub fn complete_round(&mut self, new_pools: Vec<Pool>, end_block: u64)
        ensures
            final(self).pools@ == old(self).pools@ + new_pools@,
            final(self).last_synced_block == end_block,
            !final(self).is_initial_sync,
            final(self).pool_type == old(self).pool_type,
    {
        let mut incoming: Vec<Pool> = new_pools;
        self.pools.append(&mut incoming);
        self.last_synced_block = end_block;
        self.is_initial_sync = false;
    }

    /// Runs the in-memory part of one round: the round's events are replayed
    /// against the known pools in the steady state, so that a mint or a burn
    /// around the current tick moves their aggregate liquidity, and against
    /// the newly populated pools as an initial sync, which keeps the
    /// liquidity that the bulk read gave them; then the round is closed.
    ///
    /// The first rejected event ends the round with its error: the
    /// checkpoint does not move and no pool joins. Either a known pool
    /// rejected the event, and the known pools before it are replayed and
    /// those after it untouched; or all known pools are replayed and a new
    /// pool rejected the event.
    pub fn sync_round(&mut self, new_pools: Vec<Pool>, logs: &Vec<PoolLog>, end_block: u64) -> (r:
        Result<(), PoolSyncError>)
        ensures
            final(self).pool_type == old(self).pool_type,
            match r {
                Ok(_) => {
                    &&& final(self).last_synced_block == end_block
                    &&& !final(self).is_initial_sync
                    &&& round_accepted(pools_view(old(self).pools@), pools_view(new_pools@), logs@)
                    &&& pools_view(final(self).pools@) == round_pools(
                        pools_view(old(self).pools@),
                        pools_view(new_pools@),
                        logs@,
                    )
                    &&& final(self).pools@.len() == old(self).pools@.len() + new_pools@.len()
                    &&& forall|i: int|
                        0 <= i < old(self).pools@.len() ==> pool_replayed(
                            #[trigger] old(self).pools@[i]@,
                            logs@,
                            false,
                        ) == Ok::<PoolView, PoolSyncError>(final(self).pools@[i]@)
                    &&& forall|j: int|
                        0 <= j < new_pools@.len() ==> pool_replayed(
                            #[trigger] new_pools@[j]@,
                            logs@,
                            true,
                        ) == Ok::<PoolView, PoolSyncError>(
                            final(self).pools@[old(self).pools@.len() + j]@,
                        )
                },
                Err(e) => {
                    &&& final(self).last_synced_block == old(self).last_synced_block
                    &&& final(self).is_initial_sync == old(self).is_initial_sync
                    &&& final(self).pools@.len() == old(self).pools@.len()
                    &&& (exists|k: int|
                        {
                            &&& 0 <= k < old(self).pools@.len()
                            &&& pool_replayed(
                                #[trigger] old(self).pools@[k]@,
                                logs@,
                                false,
                            ) == Err::<PoolView, PoolSyncError>(e)
                            &&& forall|i: int|
                                0 <= i < k ==> pool_replayed(
                                    #[trigger] old(self).pools@[i]@,
                                    logs@,
                                    false,
                                ) == Ok::<PoolView, PoolSyncError>(final(self).pools@[i]@)
                            &&& forall|i: int|
                                k < i < old(self).pools@.len() ==> (#[trigger] final(self).pools@[i])@
                                    == old(self).pools@[i]@
                        }) || ({
                        &&& forall|i: int|
                            0 <= i < old(self).pools@.len() ==> pool_replayed(
                                #[trigger] old(self).pools@[i]@,
                                logs@,
                                false,
                            ) == Ok::<PoolView, PoolSyncError>(final(self).pools@[i]@)
                        &&& exists|k: int|
                            0 <= k < new_pools@.len() && pool_replayed(
                                #[trigger] new_pools@[k]@,
                                logs@,
                                true,
                            ) == Err::<PoolView, PoolSyncError>(e)
                    })
                },
            },
    {
        let mut incoming: Vec<Pool> = new_pools;
        if let Err(e) = replay_logs(&mut self.pools, logs, false) {
            return Err(e);
        }
        if incoming.len() > 0 {
            if let Err(e) = replay_logs(&mut incoming, logs, true) {
                return Err(e);
            }
        }
        let ghost fresh = incoming@;
        let ghost known = self.pools@;
        self.pools.append(&mut incoming);
        self.last_synced_block = end_block;
        self.is_initial_sync = false;
        proof {
            assert forall|j: int| 0 <= j < new_pools@.len() implies pool_replayed(
                #[trigger] new_pools@[j]@,
                logs@,
                true,
            ) == Ok::<PoolView, PoolSyncError>(self.pools@[known.len() + j]@) by {
                assert(self.pools@[known.len() + j] == fresh[j]);
            }
            assert forall|i: int| 0 <= i < known.len() implies pool_replayed(
                #[trigger] old(self).pools@[i]@,
                logs@,
                false,
            ) == Ok::<PoolView, PoolSyncError>(self.pools@[i]@) by {
                assert(self.pools@[i] == known[i]);
            }
            assert(pools_view(self.pools@) =~= round_pools(
                pools_view(old(self).pools@),
                pools_view(new_pools@),
                logs@,
            ));
        }
        Ok(())
    }
}

} // verus!
