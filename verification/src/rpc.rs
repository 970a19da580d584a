//! The computations around the remote reads: replaying fetched events into
//! pools, cutting a block range into query windows, and cleaning the
//! addresses that a scan returns.

use vstd::prelude::*;
use crate::errors::PoolSyncError;
use crate::events::{PoolEvent, PoolLog};
use crate::pools::pool_structures::v2_structure::{sync_applied, V2View};
use crate::pools::pool_fetchers::address_read;
use crate::pools::{
    lemma_pool_event_keeps_ledger, lemma_pool_event_keeps_same_ledger, pool_consistent, pool_event_applied, pool_event_usable, pool_same_ledger, Pool,
    PoolFetcher, PoolInfo, PoolView,
};
use crate::primitives::{address_in, lemma_address_ext, Address};

verus! {

/// The pool after a sequence of events, folded in from first to last; the
/// first rejected event ends the replay with its error.
pub open spec fn events_applied(p: PoolView, events: Seq<PoolEvent>, is_initial_sync: bool) -> Result<
    PoolView,
    PoolSyncError,
>
    decreases events.len(),
{
    if events.len() == 0 {
        Ok(p)
    } else {
        match events_applied(p, events.drop_last(), is_initial_sync) {
            Ok(q) => pool_event_applied(q, events.last(), is_initial_sync),
            Err(e) => Err(e),
        }
    }
}

/// A replay that fails on a prefix of the events fails on all of them, with
/// the same error.
pub proof fn lemma_prefix_error(p: PoolView, events: Seq<PoolEvent>, n: int, is_initial_sync: bool)
    requires
        0 <= n <= events.len(),
        events_applied(p, events.take(n), is_initial_sync) is Err,
    ensures
        events_applied(p, events, is_initial_sync) == events_applied(
            p,
            events.take(n),
            is_initial_sync,
        ),
    decreases events.len() - n,
{
    if n == events.len() {
        assert(events.take(n) =~= events);
    } else {
        assert(events.drop_last().take(n) =~= events.take(n));
        lemma_prefix_error(p, events.drop_last(), n, is_initial_sync);
    }
}

/// Replaying two runs of events one after the other gives what replaying
/// their concatenation gives: a replay can stop after any event and resume
/// from the pool it has reached.
pub proof fn lemma_replay_resumes(
    p: PoolView,
    first: Seq<PoolEvent>,
    second: Seq<PoolEvent>,
    is_initial_sync: bool,
)
    ensures
        events_applied(p, first + second, is_initial_sync) == (match events_applied(
            p,
            first,
            is_initial_sync,
        ) {
            Ok(q) => events_applied(q, second, is_initial_sync),
            Err(e) => Err(e),
        }),
    decreases second.len(),
{
    if second.len() == 0 {
        assert(first + second =~= first);
    } else {
        assert((first + second).drop_last() =~= first + second.drop_last());
        assert((first + second).last() == second.last());
        lemma_replay_resumes(p, first, second.drop_last(), is_initial_sync);
    }
}

/// Whether the ticks of every event of a sequence can bound a position of
/// the pool.
pub open spec fn all_usable(p: PoolView, events: Seq<PoolEvent>) -> bool {
    forall|i: int| 0 <= i < events.len() ==> pool_event_usable(p, #[trigger] events[i])
}

/// The ledger stays consistent through every state of a replay: a
/// consistent pool that accepts a sequence of events with usable ticks is
/// consistent after it, and so after each of the events.
pub proof fn lemma_replay_keeps_ledger(p: PoolView, events: Seq<PoolEvent>, is_initial_sync: bool)
    requires
        pool_consistent(p),
        all_usable(p, events),
        events_applied(p, events, is_initial_sync) is Ok,
    ensures
        pool_consistent(events_applied(p, events, is_initial_sync)->Ok_0),
        forall|later: PoolEvent|
            pool_event_usable(events_applied(p, events, is_initial_sync)->Ok_0, later)
                == #[trigger] pool_event_usable(p, later),
    decreases events.len(),
{
    if events.len() > 0 {
        let rest = events.drop_last();
        assert(all_usable(p, rest)) by {
            assert forall|i: int| 0 <= i < rest.len() implies pool_event_usable(
                p,
                #[trigger] rest[i],
            ) by {
                assert(rest[i] == events[i]);
            }
        }
        lemma_replay_keeps_ledger(p, rest, is_initial_sync);
        let q = events_applied(p, rest, is_initial_sync)->Ok_0;
        assert(pool_event_usable(p, events.last())) by {
            assert(events.last() == events[events.len() - 1]);
        }
        assert forall|later: PoolEvent|
            pool_event_usable(events_applied(p, events, is_initial_sync)->Ok_0, later)
                == #[trigger] pool_event_usable(p, later) by {
            lemma_pool_event_keeps_ledger(q, events.last(), later, is_initial_sync);
        }
        lemma_pool_event_keeps_ledger(q, events.last(), events.last(), is_initial_sync);
    }
}

/// Two pools with the same ledger that both accept a sequence of events have
/// the same ledger after it, whatever their initial-sync flags: the tick
/// records and the bitmap that a replay leaves depend on the events alone.
pub proof fn lemma_replay_keeps_same_ledger(
    p: PoolView,
    q: PoolView,
    events: Seq<PoolEvent>,
    p_initial: bool,
    q_initial: bool,
)
    requires
        pool_same_ledger(p, q),
        events_applied(p, events, p_initial) is Ok,
        events_applied(q, events, q_initial) is Ok,
    ensures
        pool_same_ledger(
            events_applied(p, events, p_initial)->Ok_0,
            events_applied(q, events, q_initial)->Ok_0,
        ),
    decreases events.len(),
{
    if events.len() > 0 {
        lemma_replay_keeps_same_ledger(p, q, events.drop_last(), p_initial, q_initial);
        lemma_pool_event_keeps_same_ledger(
            events_applied(p, events.drop_last(), p_initial)->Ok_0,
            events_applied(q, events.drop_last(), q_initial)->Ok_0,
            events.last(),
            p_initial,
            q_initial,
        );
    }
}

/// Synchronising in two runs leaves the ledger that one run leaves. A pool
/// is populated at the end of the first run as `at_half` and, were the range
/// synchronised in one run, at its end as `at_end`; both start with the same
/// ledger. Replaying the first run's events as an initial sync and then the
/// second run's in the steady state gives the same tick records, bitmap and
/// identity as replaying all events as one initial sync, whenever both are
/// accepted.
pub proof fn lemma_split_run_ledger(
    at_half: PoolView,
    at_end: PoolView,
    first: Seq<PoolEvent>,
    second: Seq<PoolEvent>,
)
    requires
        pool_same_ledger(at_half, at_end),
        events_applied(at_end, first + second, true) is Ok,
        events_applied(at_half, first, true) is Ok,
        events_applied(events_applied(at_half, first, true)->Ok_0, second, false) is Ok,
    ensures
        pool_same_ledger(
            events_applied(events_applied(at_half, first, true)->Ok_0, second, false)->Ok_0,
            events_applied(at_end, first + second, true)->Ok_0,
        ),
{
    lemma_replay_resumes(at_end, first, second, true);
    lemma_replay_keeps_same_ledger(at_half, at_end, first, true, true);
    lemma_replay_keeps_same_ledger(
        events_applied(at_half, first, true)->Ok_0,
        events_applied(at_end, first, true)->Ok_0,
        second,
        false,
        true,
    );
}

/// A replay leaves a pool in its family and at its address.
pub proof fn lemma_replay_keeps_family(p: PoolView, events: Seq<PoolEvent>, is_initial_sync: bool)
    requires
        events_applied(p, events, is_initial_sync) is Ok,
    ensures
        events_applied(p, events, is_initial_sync)->Ok_0.pool_type() == p.pool_type(),
        events_applied(p, events, is_initial_sync)->Ok_0.address() == p.address(),
    decreases events.len(),
{
    reveal(pool_event_applied);
    if events.len() > 0 {
        lemma_replay_keeps_family(p, events.drop_last(), is_initial_sync);
    }
}

/// Whether an event overwrites everything that a bulk read reports of the
/// moment: a swap does for a concentrated-liquidity pool, a reserve-sync for
/// a constant-product pool.
pub open spec fn event_settles(p: PoolView, event: PoolEvent) -> bool {
    match p {
        PoolView::MerchantMoe(_) => event is Sync,
        _ => event is Swap,
    }
}

/// Synchronising in two runs gives the pool that one run gives, where the
/// pool's last event settles it. Under the conditions of
/// `lemma_split_run_ledger`, and where the second run's events end with a
/// swap (for a constant-product pool, a reserve-sync), the split replay and
/// the single replay give the same pool in every field.
pub proof fn lemma_split_run_settles(
    at_half: PoolView,
    at_end: PoolView,
    first: Seq<PoolEvent>,
    second: Seq<PoolEvent>,
)
    requires
        pool_same_ledger(at_half, at_end),
        second.len() > 0,
        event_settles(at_end, second.last()),
        events_applied(at_end, first + second, true) is Ok,
        events_applied(at_half, first, true) is Ok,
        events_applied(events_applied(at_half, first, true)->Ok_0, second, false) is Ok,
    ensures
        events_applied(events_applied(at_half, first, true)->Ok_0, second, false)
            == events_applied(at_end, first + second, true),
{
    let rest = second.drop_last();
    let half = events_applied(at_half, first, true)->Ok_0;
    assert((first + second).drop_last() =~= first + rest);
    assert((first + second).last() == second.last());
    lemma_split_run_ledger(at_half, at_end, first, rest);
    let split = events_applied(half, rest, false)->Ok_0;
    let single = events_applied(at_end, first + rest, true)->Ok_0;
    assert(pool_same_ledger(split, single));
    lemma_replay_keeps_family(at_end, first + rest, true);
    assert(events_applied(half, second, false) == pool_event_applied(split, second.last(), false));
    assert(events_applied(at_end, first + second, true) == pool_event_applied(
        single,
        second.last(),
        true,
    ));
    reveal(pool_event_applied);
}

/// Whether every event of a sequence is a reserve-sync.
pub open spec fn all_syncs(events: Seq<PoolEvent>) -> bool {
    forall|i: int| 0 <= i < events.len() ==> #[trigger] events[i] is Sync
}

/// The last write wins: after any sequence of reserve-syncs, a
/// constant-product pool is what the last of them alone would have made of
/// the pool, so its reserves are those that the last event reports.
pub proof fn lemma_last_sync_wins(v: V2View, events: Seq<PoolEvent>, is_initial_sync: bool)
    requires
        events.len() > 0,
        all_syncs(events),
    ensures
        sync_applied(v, events.last()) is Ok,
        events_applied(PoolView::MerchantMoe(v), events, is_initial_sync) == Ok::<
            PoolView,
            PoolSyncError,
        >(PoolView::MerchantMoe(sync_applied(v, events.last())->Ok_0)),
        sync_applied(v, events.last())->Ok_0.token0_reserves == events.last()->reserve0,
        sync_applied(v, events.last())->Ok_0.token1_reserves == events.last()->reserve1,
    decreases events.len(),
{
    reveal(pool_event_applied);
    assert(events.last() is Sync);
    if events.len() == 1 {
        assert(events.drop_last() =~= Seq::empty());
        assert(events_applied(PoolView::MerchantMoe(v), events.drop_last(), is_initial_sync)
            == Ok::<PoolView, PoolSyncError>(PoolView::MerchantMoe(v)));
    } else {
        let rest = events.drop_last();
        assert(all_syncs(rest)) by {
            assert forall|i: int| 0 <= i < rest.len() implies #[trigger] rest[i] is Sync by {
                assert(rest[i] == events[i]);
            }
        }
        lemma_last_sync_wins(v, rest, is_initial_sync);
    }
}

/// Folds a sequence of events into one pool, from first to last.
///
/// The first rejected event ends the replay: the pool then holds what the
/// events before it made of it.
pub fn apply_events(pool: &mut Pool, events: &Vec<PoolEvent>, is_initial_sync: bool) -> (r: Result<
    (),
    PoolSyncError,
>)
    ensures
        match r {
            Ok(_) => events_applied(old(pool)@, events@, is_initial_sync) == Ok::<
                PoolView,
                PoolSyncError,
            >(final(pool)@),
            Err(e) => {
                &&& events_applied(old(pool)@, events@, is_initial_sync) == Err::<
                    PoolView,
                    PoolSyncError,
                >(e)
                &&& exists|n: int|
                    0 <= n < events.len() && #[trigger] events_applied(
                        old(pool)@,
                        events@.take(n),
                        is_initial_sync,
                    ) == Ok::<PoolView, PoolSyncError>(final(pool)@) && pool_event_applied(
                        final(pool)@,
                        events@[n],
                        is_initial_sync,
                    ) == Err::<PoolView, PoolSyncError>(e)
            },
        },
{
    let ghost start = pool@;
    let mut i: usize = 0;
    assert(events@.take(0) =~= Seq::empty());
    while i < events.len()
        invariant
            i <= events.len(),
            start == old(pool)@,
            events_applied(start, events@.take(i as int), is_initial_sync) == Ok::<
                PoolView,
                PoolSyncError,
            >(pool@),
        decreases events.len() - i,
    {
        proof {
            assert(events@.take(i + 1).drop_last() =~= events@.take(i as int));
            assert(events@.take(i + 1).last() == events@[i as int]);
        }
        if let Err(e) = pool.apply_event(&events[i], is_initial_sync) {
            proof {
                assert(events_applied(start, events@.take(i + 1), is_initial_sync) == Err::<
                    PoolView,
                    PoolSyncError,
                >(e));
                lemma_prefix_error(start, events@, i + 1, is_initial_sync);
                assert(events_applied(start, events@.take(i as int), is_initial_sync) == Ok::<
                    PoolView,
                    PoolSyncError,
                >(pool@));
            }
            return Err(e);
        }
        i += 1;
    }
    assert(events@.take(i as int) =~= events@);
    Ok(())
}

/// The events that a pool with the given address emitted, in the order of
/// the logs.
pub open spec fn events_of(logs: Seq<PoolLog>, address: Address) -> Seq<PoolEvent>
    decreases logs.len(),
{
    if logs.len() == 0 {
        Seq::empty()
    } else if logs.last().address == address {
        events_of(logs.drop_last(), address).push(logs.last().event)
    } else {
        events_of(logs.drop_last(), address)
    }
}

/// The events of a pool in two runs of logs, one after the other, are its
/// events in the first followed by its events in the second.
pub proof fn lemma_events_of_concat(first: Seq<PoolLog>, second: Seq<PoolLog>, address: Address)
    ensures
        events_of(first + second, address) == events_of(first, address) + events_of(
            second,
            address,
        ),
    decreases second.len(),
{
    if second.len() == 0 {
        assert(first + second =~= first);
        assert(events_of(first, address) + events_of(second, address) =~= events_of(
            first,
            address,
        ));
    } else {
        assert((first + second).drop_last() =~= first + second.drop_last());
        assert((first + second).last() == second.last());
        lemma_events_of_concat(first, second.drop_last(), address);
        assert(events_of(first + second, address) =~= events_of(first, address) + events_of(
            second,
            address,
        ));
    }
}

/// Picks from the logs the events of one pool, keeping their order.
pub fn events_for(logs: &Vec<PoolLog>, address: &Address) -> (r: Vec<PoolEvent>)
    ensures
        r@ == events_of(logs@, *address),
{
    let mut picked: Vec<PoolEvent> = Vec::new();
    let mut i: usize = 0;
    assert(logs@.take(0) =~= Seq::empty());
    while i < logs.len()
        invariant
            i <= logs.len(),
            picked@ == events_of(logs@.take(i as int), *address),
        decreases logs.len() - i,
    {
        proof {
            assert(logs@.take(i + 1).drop_last() =~= logs@.take(i as int));
            assert(logs@.take(i + 1).last() == logs@[i as int]);
            if logs@[i as int].address@ == address@ {
                lemma_address_ext(logs@[i as int].address, *address);
            }
        }
        if logs[i].address == *address {
            picked.push(logs[i].event);
        }
        i += 1;
    }
    assert(logs@.take(i as int) =~= logs@);
    picked
}

/// What a replay of the logs makes of one pool: the pool's own events are
/// folded into it, in the order of the logs.
pub open spec fn pool_replayed(p: PoolView, logs: Seq<PoolLog>, is_initial_sync: bool) -> Result<
    PoolView,
    PoolSyncError,
> {
    events_applied(p, events_of(logs, p.address()), is_initial_sync)
}

/// Brings every pool of a collection up to date with a run of logs: each pool
/// receives the events that carry its address, in the order of the logs.
///
/// The replay ends at the first pool that rejects an event, with that
/// event's error; the pools before it are up to date, the pool itself holds
/// what its events before the rejected one made of it, and the pools after
/// it are untouched.
pub fn replay_logs(pools: &mut Vec<Pool>, logs: &Vec<PoolLog>, is_initial_sync: bool) -> (r: Result<
    (),
    PoolSyncError,
>)
    ensures
        final(pools).len() == old(pools).len(),
        match r {
            Ok(_) => forall|i: int|
                0 <= i < old(pools).len() ==> pool_replayed(
                    #[trigger] old(pools)[i]@,
                    logs@,
                    is_initial_sync,
                ) == Ok::<PoolView, PoolSyncError>(final(pools)[i]@),
            Err(e) => exists|k: int|
                {
                    &&& 0 <= k < old(pools).len()
                    &&& pool_replayed(#[trigger] old(pools)[k]@, logs@, is_initial_sync) == Err::<
                        PoolView,
                        PoolSyncError,
                    >(e)
                    &&& forall|i: int|
                        0 <= i < k ==> pool_replayed(
                            #[trigger] old(pools)[i]@,
                            logs@,
                            is_initial_sync,
                        ) == Ok::<PoolView, PoolSyncError>(final(pools)[i]@)
                    &&& forall|i: int|
                        k < i < old(pools).len() ==> #[trigger] final(pools)[i]@ == old(pools)[i]@
                    &&& exists|n: int|
                        0 <= n && #[trigger] events_applied(
                            old(pools)[k]@,
                            events_of(logs@, old(pools)[k]@.address()).take(n),
                            is_initial_sync,
                        ) == Ok::<PoolView, PoolSyncError>(final(pools)[k]@)
                },
        },
{
    let ghost start = pools@;
    let mut i: usize = 0;
    while i < pools.len()
        invariant
            i <= pools.len(),
            pools.len() == start.len(),
            start == old(pools)@,
            forall|j: int|
                0 <= j < i ==> pool_replayed(#[trigger] start[j]@, logs@, is_initial_sync) == Ok::<
                    PoolView,
                    PoolSyncError,
                >(pools[j]@),
            forall|j: int| i <= j < start.len() ==> #[trigger] pools[j]@ == start[j]@,
        decreases pools.len() - i,
    {
        let address: Address = pools[i].address();
        let events: Vec<PoolEvent> = events_for(logs, &address);
        let outcome = apply_events(&mut pools[i], &events, is_initial_sync);
        if let Err(e) = outcome {
            assert(pool_replayed(start[i as int]@, logs@, is_initial_sync) == Err::<
                PoolView,
                PoolSyncError,
            >(e));
            return Err(e);
        }
        i += 1;
    }
    Ok(())
}

/// The number of blocks that one log query covers.
pub const BLOCKS_PER_QUERY: u64 = 10000;

/// The number of windows of `step` blocks that it takes to cover the blocks
/// from `start` to `end`, both included.
pub open spec fn window_count(start: u64, end: u64, step: u64) -> int {
    if start > end {
        0
    } else {
        (end - start) / (step as int) + 1
    }
}

/// Window `i` of the blocks from `start` to `end`: it begins `i` steps after
/// `start` and holds `step` blocks, or what is left of the range.
pub open spec fn window_at(start: u64, end: u64, step: u64, i: int) -> (u64, u64) {
    let from: int = start + i * step;
    let to: int = if from + step - 1 < end {
        from + step - 1
    } else {
        end as int
    };
    (from as u64, to as u64)
}

/// Cuts the blocks from `start` to `end`, both included, into consecutive
/// windows of `step` blocks; the last window holds what is left. Every block
/// of the range lies in exactly one window, and an empty range gives no
/// window.
pub fn block_windows(start: u64, end: u64, step: u64) -> (r: Vec<(u64, u64)>)
    requires
        step > 0,
    ensures
        r@.len() == window_count(start, end, step),
        forall|i: int| 0 <= i < r@.len() ==> #[trigger] r@[i] == window_at(start, end, step, i),
        forall|i: int|
            0 <= i < r@.len() ==> start <= (#[trigger] r@[i]).0 <= r@[i].1 <= end && r@[i].1
                - r@[i].0 < step,
        forall|i: int| 0 <= i < r@.len() - 1 ==> (#[trigger] r@[i]).1 + 1 == r@[i + 1].0,
        start <= end ==> r@.len() > 0 && r@[0].0 == start && r@[r@.len() - 1].1 == end,
{
    let mut windows: Vec<(u64, u64)> = Vec::new();
    if start > end {
        return windows;
    }
    let mut from: u64 = start;
    let mut done: bool = false;
    proof {
        lemma_window_steps(start, end, step, 0);
    }
    while !done
        invariant
            step > 0,
            start <= end,
            start <= from <= end,
            !done ==> from == start + windows@.len() * step,
            !done ==> windows@.len() < window_count(start, end, step),
            done ==> windows@.len() == window_count(start, end, step),
            forall|i: int|
                0 <= i < windows@.len() ==> #[trigger] windows@[i] == window_at(start, end, step, i),
            done ==> windows@.len() > 0 && windows@[windows@.len() - 1].1 == end,
            !done && windows@.len() > 0 ==> windows@[windows@.len() - 1].1 + 1 == from,
        decreases (if done { 0 } else { end - from + 1 }),
    {
        let ghost n: int = windows@.len() as int;
        proof {
            lemma_window_steps(start, end, step, n);
        }
        if end - from < step {
            windows.push((from, end));
            done = true;
        } else {
            let to: u64 = from + (step - 1);
            windows.push((from, to));
            from = to + 1;
        }
    }
    proof {
        assert forall|i: int| 0 <= i < windows@.len() implies start <= (#[trigger] windows@[i]).0
            <= windows@[i].1 <= end && windows@[i].1 - windows@[i].0 < step by {
            lemma_window_steps(start, end, step, i);
        }
        assert forall|i: int| 0 <= i < windows@.len() - 1 implies (#[trigger] windows@[i]).1 + 1
            == windows@[i + 1].0 by {
            lemma_window_steps(start, end, step, i);
            lemma_window_steps(start, end, step, i + 1);
        }
        lemma_window_steps(start, end, step, 0);
    }
    windows
}

/// Where window `i` lies, for a window of the range: it starts within the
/// range, and it is the last one exactly when fewer than `step` blocks
/// remain after its start.
pub proof fn lemma_window_steps(start: u64, end: u64, step: u64, i: int)
    requires
        step > 0,
        start <= end,
        0 <= i,
    ensures
        (i + 1) * step == i * step + step,
        i < window_count(start, end, step) <==> start + i * step <= end,
        i + 1 == window_count(start, end, step) <==> (start + i * step <= end && end - (start + i
            * step) < step),
        i * step >= 0,
{
    let d: int = end - start;
    let s: int = step as int;
    assert((i + 1) * s == i * s + s) by (nonlinear_arith);
    assert(i * s >= 0) by (nonlinear_arith)
        requires
            i >= 0,
            s > 0,
    ;
    vstd::arithmetic::div_mod::lemma_fundamental_div_mod(d, s);
    let q: int = d / s;
    assert(0 <= d % s < s);
    assert(i <= q <==> i * s <= d) by (nonlinear_arith)
        requires
            d == s * q + d % s,
            0 <= d % s < s,
            s > 0,
    ;
    assert(i == q <==> (i * s <= d && d - i * s < s)) by (nonlinear_arith)
        requires
            d == s * q + d % s,
            0 <= d % s < s,
            s > 0,
    ;
}

/// The addresses of a sequence without repetition, each at the place of its
/// first occurrence.
pub open spec fn deduped(s: Seq<Address>) -> Seq<Address>
    decreases s.len(),
{
    if s.len() == 0 {
        Seq::empty()
    } else if deduped(s.drop_last()).contains(s.last()) {
        deduped(s.drop_last())
    } else {
        deduped(s.drop_last()).push(s.last())
    }
}

/// Removing repetitions keeps every address and leaves none twice.
pub proof fn lemma_deduped(s: Seq<Address>)
    ensures
        deduped(s).no_duplicates(),
        forall|a: Address| #[trigger] deduped(s).contains(a) <==> s.contains(a),
        deduped(s).len() <= s.len(),
    decreases s.len(),
{
    if s.len() > 0 {
        let rest = s.drop_last();
        let d = deduped(rest);
        lemma_deduped(rest);
        assert forall|a: Address| #[trigger] deduped(s).contains(a) <==> s.contains(a) by {
            assert(d.contains(a) <==> rest.contains(a));
            if s.contains(a) && !deduped(s).contains(a) {
                let i = choose|i: int| 0 <= i < s.len() && s[i] == a;
                if i < rest.len() {
                    assert(rest[i] == a);
                    let j = choose|j: int| 0 <= j < d.len() && d[j] == a;
                    assert(deduped(s)[j] == a);
                } else {
                    assert(a == s.last());
                    assert(deduped(s)[d.len() as int] == a);
                }
            }
            if deduped(s).contains(a) && !s.contains(a) {
                let j = choose|j: int| 0 <= j < deduped(s).len() && deduped(s)[j] == a;
                if j < d.len() {
                    assert(d[j] == a);
                    let i = choose|i: int| 0 <= i < rest.len() && rest[i] == a;
                    assert(s[i] == a);
                } else {
                    assert(s[s.len() - 1] == a);
                }
            }
        }
    }
}

/// Discovery keeps its order over two runs: where no address of the second
/// scan was found by the first, removing repetitions from both scans
/// together gives the addresses of the first scan followed by those of the
/// second.
pub proof fn lemma_dedup_concat(first: Seq<Address>, second: Seq<Address>)
    requires
        forall|a: Address| second.contains(a) ==> !first.contains(a),
    ensures
        deduped(first + second) == deduped(first) + deduped(second),
    decreases second.len(),
{
    if second.len() == 0 {
        assert(first + second =~= first);
        assert(deduped(first) + deduped(second) =~= deduped(first));
    } else {
        let rest = second.drop_last();
        let last = second.last();
        assert((first + second).drop_last() =~= first + rest);
        assert((first + second).last() == last);
        assert forall|a: Address| rest.contains(a) implies !first.contains(a) by {
            let i = choose|i: int| 0 <= i < rest.len() && rest[i] == a;
            assert(second[i] == a);
        }
        lemma_dedup_concat(first, rest);
        lemma_deduped(first + rest);
        lemma_deduped(rest);
        lemma_deduped(first);
        assert(second[second.len() - 1] == last);
        assert(!first.contains(last));
        assert(deduped(first + rest).contains(last) == deduped(rest).contains(last)) by {
            if (first + rest).contains(last) {
                let i = choose|i: int| 0 <= i < (first + rest).len() && (first + rest)[i] == last;
                if i < first.len() {
                    assert(first[i] == last);
                } else {
                    assert(rest[i - first.len()] == last);
                }
            }
            if rest.contains(last) {
                let i = choose|i: int| 0 <= i < rest.len() && rest[i] == last;
                assert((first + rest)[first.len() + i] == last);
            }
        }
        if deduped(rest).contains(last) {
            assert(deduped(first + second) =~= deduped(first) + deduped(second));
        } else {
            assert(deduped(first + second) =~= deduped(first) + deduped(second));
        }
    }
}

/// Tells whether a list holds an address.
pub fn contains_address(list: &Vec<Address>, address: &Address) -> (r: bool)
    ensures
        r == list@.contains(*address),
{
    let mut i: usize = 0;
    while i < list.len()
        invariant
            i <= list.len(),
            forall|j: int| 0 <= j < i ==> list@[j] != *address,
        decreases list.len() - i,
    {
        if list[i] == *address {
            proof {
                lemma_address_ext(list@[i as int], *address);
            }
            return true;
        }
        i += 1;
    }
    false
}

/// Removes the repetitions from the addresses that a scan has gathered:
/// every address is kept once, at the place of its first occurrence.
pub fn dedup_addresses(addresses: &Vec<Address>) -> (r: Vec<Address>)
    ensures
        r@ == deduped(addresses@),
        r@.no_duplicates(),
        forall|a: Address| r@.contains(a) <==> addresses@.contains(a),
        r@.len() <= addresses@.len(),
{
    let mut kept: Vec<Address> = Vec::new();
    let mut i: usize = 0;
    assert(addresses@.take(0) =~= Seq::empty());
    while i < addresses.len()
        invariant
            i <= addresses.len(),
            kept@ == deduped(addresses@.take(i as int)),
        decreases addresses.len() - i,
    {
        proof {
            assert(addresses@.take(i + 1).drop_last() =~= addresses@.take(i as int));
            assert(addresses@.take(i + 1).last() == addresses@[i as int]);
        }
        if !contains_address(&kept, &addresses[i]) {
            kept.push(addresses[i]);
        }
        i += 1;
    }
    proof {
        assert(addresses@.take(i as int) =~= addresses@);
        lemma_deduped(addresses@);
    }
    kept
}

/// Cuts a list of addresses into batches of `size` addresses, in order; the
/// last batch holds what is left. Batch `i` holds the addresses at the places
/// that window `i` of the list's indices names.
pub fn address_batches(addresses: &Vec<Address>, size: usize) -> (r: Vec<Vec<Address>>)
    requires
        size > 0,
    ensures
        addresses@.len() == 0 ==> r@.len() == 0,
        addresses@.len() > 0 ==> r@.len() == window_count(
            0,
            (addresses@.len() - 1) as u64,
            size as u64,
        ),
        forall|i: int|
            0 <= i < r@.len() ==> (#[trigger] r@[i])@ == addresses@.subrange(
                window_at(0, (addresses@.len() - 1) as u64, size as u64, i).0 as int,
                window_at(0, (addresses@.len() - 1) as u64, size as u64, i).1 + 1,
            ),
        forall|i: int| 0 <= i < r@.len() ==> 0 < (#[trigger] r@[i])@.len() <= size,
{
    let mut batches: Vec<Vec<Address>> = Vec::new();
    if addresses.len() == 0 {
        return batches;
    }
    let last: u64 = (addresses.len() - 1) as u64;
    let windows: Vec<(u64, u64)> = block_windows(0, last, size as u64);
    let mut i: usize = 0;
    assert(addresses@.len() == addresses.len());
    while i < windows.len()
        invariant
            i <= windows.len(),
            last == addresses@.len() - 1,
            addresses@.len() <= usize::MAX,
            batches@.len() == i,
            windows@.len() == window_count(0, last, size as u64),
            forall|j: int|
                0 <= j < windows@.len() ==> #[trigger] windows@[j] == window_at(
                    0,
                    last,
                    size as u64,
                    j,
                ),
            forall|j: int|
                0 <= j < windows@.len() ==> 0 <= (#[trigger] windows@[j]).0 <= windows@[j].1
                    <= last && windows@[j].1 - windows@[j].0 < size as u64,
            forall|j: int|
                0 <= j < i ==> (#[trigger] batches@[j])@ == addresses@.subrange(
                    windows@[j].0 as int,
                    windows@[j].1 + 1,
                ),
        decreases windows.len() - i,
    {
        assert(windows@[i as int].0 <= windows@[i as int].1 <= last);
        let from: usize = windows[i].0 as usize;
        let to: usize = windows[i].1 as usize;
        let ghost before = batches@;
        let mut batch: Vec<Address> = Vec::new();
        let mut k: usize = from;
        while k <= to
            invariant
                from <= k <= to + 1,
                to < addresses@.len() <= usize::MAX,
                batch@ == addresses@.subrange(from as int, k as int),
            decreases to + 1 - k,
        {
            batch.push(addresses[k]);
            assert(batch@ =~= addresses@.subrange(from as int, k + 1));
            k += 1;
        }
        batches.push(batch);
        assert forall|j: int| 0 <= j < i + 1 implies (#[trigger] batches@[j])@
            == addresses@.subrange(windows@[j].0 as int, windows@[j].1 + 1) by {
            if j < i {
                assert(batches@[j] == before[j]);
            }
        }
        i += 1;
    }
    batches
}

/// The pool addresses that the data of a run of creation events name, in
/// the order of the events. One event whose data ends before its address
/// rejects the whole run.
pub open spec fn creations_read(offset: int, logs: Seq<Seq<u8>>) -> Result<
    Seq<Address>,
    PoolSyncError,
>
    decreases logs.len(),
{
    if logs.len() == 0 {
        Ok(Seq::empty())
    } else {
        match creations_read(offset, logs.drop_last()) {
            Err(e) => Err(e),
            Ok(found) => if logs.last().len() < offset + 20 {
                Err(PoolSyncError::MalformedRecord)
            } else {
                Ok(found.push(address_in(logs.last(), offset)))
            },
        }
    }
}

/// A run of creation events that cannot be read up to some event cannot be
/// read as a whole.
pub proof fn lemma_creations_prefix_error(offset: int, logs: Seq<Seq<u8>>, n: int)
    requires
        0 <= n <= logs.len(),
        creations_read(offset, logs.take(n)) is Err,
    ensures
        creations_read(offset, logs) == creations_read(offset, logs.take(n)),
    decreases logs.len() - n,
{
    if n == logs.len() {
        assert(logs.take(n) =~= logs);
    } else {
        assert(logs.drop_last().take(n) =~= logs.take(n));
        lemma_creations_prefix_error(offset, logs.drop_last(), n);
    }
}

/// The data of a run of logs as a sequence of byte sequences.
pub open spec fn logs_view(logs: Seq<Vec<u8>>) -> Seq<Seq<u8>> {
    logs.map_values(|data: Vec<u8>| data@)
}

/// Reads the pool address out of the data of every creation event of a
/// scan and removes the repetitions: the result holds every created pool
/// once, in the order of first appearance. One event that cannot be read
/// fails the whole scan.
pub fn created_addresses<F: PoolFetcher>(fetcher: &F, logs: &Vec<Vec<u8>>) -> (r: Result<
    Vec<Address>,
    PoolSyncError,
>)
    ensures
        match r {
            Ok(found) => {
                &&& creations_read(fetcher.address_offset(), logs_view(logs@)) is Ok
                &&& found@ == deduped(
                    creations_read(fetcher.address_offset(), logs_view(logs@))->Ok_0,
                )
                &&& found@.no_duplicates()
                &&& found@.len() <= logs@.len()
            },
            Err(e) => creations_read(fetcher.address_offset(), logs_view(logs@)) == Err::<
                Seq<Address>,
                PoolSyncError,
            >(e),
        },
{
    let ghost all = logs_view(logs@);
    let ghost offset = fetcher.address_offset();
    let mut found: Vec<Address> = Vec::new();
    let mut i: usize = 0;
    proof {
        assert(all.take(0) =~= Seq::empty());
    }
    while i < logs.len()
        invariant
            i <= logs.len(),
            all == logs_view(logs@),
            offset == fetcher.address_offset(),
            found@.len() == i,
            creations_read(offset, all.take(i as int)) == Ok::<Seq<Address>, PoolSyncError>(
                found@,
            ),
        decreases logs.len() - i,
    {
        proof {
            assert(all.take(i + 1).drop_last() =~= all.take(i as int));
            assert(all.take(i + 1).last() == logs@[i as int]@);
        }
        match fetcher.log_to_address(logs[i].as_slice()) {
            Ok(address) => {
                proof {
                    let data = logs@[i as int]@;
                    assert(address@ == data.subrange(offset, offset + 20));
                    lemma_address_ext(address_in(data, offset), address);
                }
                found.push(address);
            },
            Err(e) => {
                proof {
                    assert(creations_read(offset, all.take(i + 1)) == Err::<
                        Seq<Address>,
                        PoolSyncError,
                    >(e));
                    lemma_creations_prefix_error(offset, all, i + 1);
                }
                return Err(e);
            },
        }
        i += 1;
    }
    proof {
        assert(all.take(i as int) =~= all);
    }
    Ok(dedup_addresses(&found))
}

/// The number of requests that may be in flight at once under a rate limit.
/// A limit of zero would let no request through, so it counts as one.
pub open spec fn ceiling_of(rate_limit: u64) -> u64 {
    if rate_limit == 0 {
        1
    } else {
        rate_limit
    }
}

/// Groups `count` requests, numbered from zero, into waves that are sent one
/// after the other: each wave names its first and its last request, holds no
/// more requests than the rate limit allows in flight, and every request is
/// in exactly one wave.
pub fn request_waves(count: usize, rate_limit: u64) -> (r: Vec<(u64, u64)>)
    ensures
        count == 0 ==> r@.len() == 0,
        count > 0 ==> r@.len() == window_count(0, (count - 1) as u64, ceiling_of(rate_limit)),
        forall|i: int|
            0 <= i < r@.len() ==> #[trigger] r@[i] == window_at(
                0,
                (count - 1) as u64,
                ceiling_of(rate_limit),
                i,
            ),
        forall|i: int|
            0 <= i < r@.len() ==> (#[trigger] r@[i]).0 <= r@[i].1 < count && r@[i].1 - r@[i].0
                < ceiling_of(rate_limit),
        forall|i: int| 0 <= i < r@.len() - 1 ==> (#[trigger] r@[i]).1 + 1 == r@[i + 1].0,
        count > 0 ==> r@.len() > 0 && r@[0].0 == 0 && r@[r@.len() - 1].1 == count - 1,
{
    if count == 0 {
        return Vec::new();
    }
    let ceiling: u64 = if rate_limit == 0 {
        1
    } else {
        rate_limit
    };
    block_windows(0, (count - 1) as u64, ceiling)
}

} // verus!
