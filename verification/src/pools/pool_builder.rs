//! Building pools from bulk-read records, and the retry policy of the bulk
//! read.

use rand::Rng;
use vstd::prelude::*;
use crate::errors::PoolSyncError;
use crate::pools::abi::{decode_records, records_decoded, records_view, AbiType, AbiValue};
use crate::pools::{pool_decoded, Pool, PoolFetcher, PoolType, PoolView};

verus! {

/// The delay before the first retry, in milliseconds.
pub const INITIAL_BACKOFF: u64 = 1000;

/// The number of retries after which a batch is given up.
pub const MAX_RETRIES: u32 = 5;

/// The largest random addition to a delay, in milliseconds.
pub const MAX_JITTER: u64 = 100;

/// Where the retries of one bulk read stand.
#[derive(Debug, Clone, Copy, PartialEq, Eq, Structural)]
pub struct RetryState {
    /// The retries made so far.
    pub retry_count: u32,
    /// The delay before the next retry, without jitter, in milliseconds.
    pub backoff: u64,
}

/// What to do after a failed bulk read.
#[derive(Debug, Clone, Copy, PartialEq, Eq, Structural)]
pub enum RetryAction {
    /// Wait for the given number of milliseconds, then read again.
    RetryAfter(u64),
    /// Stop reading: the batch yields no pools.
    GiveUp,
}

/// A number doubled, or the largest 64-bit number where the double does not
/// fit.
pub open spec fn doubled(x: u64) -> u64 {
    if 2 * x > u64::MAX {
        u64::MAX
    } else {
        (2 * x) as u64
    }
}

/// The sum of a delay and its jitter, or the largest 64-bit number where the
/// sum does not fit.
pub open spec fn delay_with_jitter(backoff: u64, jitter: u64) -> u64 {
    if backoff + jitter > u64::MAX {
        u64::MAX
    } else {
        (backoff + jitter) as u64
    }
}

/// The state and the action that follow a failed bulk read: once the retries
/// are used up the batch is given up; before that the read is repeated after
/// the current delay plus jitter, and the delay doubles.
pub open spec fn retry_decided(state: RetryState, jitter: u64) -> (RetryState, RetryAction) {
    if state.retry_count >= MAX_RETRIES {
        (state, RetryAction::GiveUp)
    } else {
        (
            RetryState {
                retry_count: (state.retry_count + 1) as u32,
                backoff: doubled(state.backoff),
            },
            RetryAction::RetryAfter(delay_with_jitter(state.backoff, jitter)),
        )
    }
}

/// The delay before retry `n`, without jitter: the initial delay doubled `n`
/// times.
pub open spec fn backoff_at(n: nat) -> int
    decreases n,
{
    if n == 0 {
        INITIAL_BACKOFF as int
    } else {
        2 * backoff_at((n - 1) as nat)
    }
}

/// The state after `n` failed reads, for `n` up to the retry ceiling.
pub open spec fn state_after(n: nat) -> RetryState {
    RetryState { retry_count: n as u32, backoff: backoff_at(n) as u64 }
}

/// The delays grow exponentially: after `n` failed reads the next delay is
/// the initial delay times two to the power `n`, and the read after it is
/// retry `n + 1`.
pub proof fn lemma_backoff_doubles(n: nat, jitter: u64)
    requires
        n < MAX_RETRIES,
        jitter <= MAX_JITTER,
    ensures
        backoff_at(n) <= 16 * INITIAL_BACKOFF,
        retry_decided(state_after(n), jitter) == (
            state_after(n + 1),
            RetryAction::RetryAfter((backoff_at(n) + jitter) as u64),
        ),
        retry_decided(state_after(MAX_RETRIES as nat), jitter).1 == RetryAction::GiveUp,
{
    reveal_with_fuel(backoff_at, 7);
    assert(backoff_at(0) == 1000);
    assert(backoff_at(1) == 2000);
    assert(backoff_at(2) == 4000);
    assert(backoff_at(3) == 8000);
    assert(backoff_at(4) == 16000);
    assert(backoff_at(5) == 32000);
}

impl RetryState {
    /// The state before the first read.
    pub fn new() -> (s: RetryState)
        ensures
            s == state_after(0),
    {
        RetryState { retry_count: 0, backoff: INITIAL_BACKOFF }
    }
}

/// Decides what follows a failed bulk read, given the jitter to add to the
/// delay.
pub fn retry_step(state: RetryState, jitter: u64) -> (r: (RetryState, RetryAction))
    ensures
        r == retry_decided(state, jitter),
{
    if state.retry_count >= MAX_RETRIES {
        (state, RetryAction::GiveUp)
    } else {
        let delay: u64 = match state.backoff.checked_add(jitter) {
            Some(d) => d,
            None => u64::MAX,
        };
        let backoff: u64 = match state.backoff.checked_mul(2) {
            Some(b) => b,
            None => u64::MAX,
        };
        (RetryState { retry_count: state.retry_count + 1, backoff }, RetryAction::RetryAfter(delay))
    }
}

/// Calls `rand::thread_rng().gen_range(low..=high)`, which draws a number
/// from the inclusive range. The contract claims only that the number lies
/// in the range; an empty range, on which the call panics, is left out.
#[verifier::external_body]
fn random_in(low: u64, high: u64) -> (r: u64)
    requires
        low <= high,
    ensures
        low <= r <= high,
{
    rand::thread_rng().gen_range(low..=high)
}

/// Draws the jitter for one delay.
pub fn draw_jitter() -> (j: u64)
    ensures
        j <= MAX_JITTER,
{
    random_in(0, MAX_JITTER)
}

/// Why a bulk read failed.
#[derive(Debug, Clone, Copy, PartialEq, Eq, Structural)]
pub enum ReadFailure {
    /// The remote end did not answer, or answered with an error.
    Remote,
    /// The answer was rejected for the given reason: it does not have the
    /// expected shape.
    Rejected(PoolSyncError),
}

/// What to do after a failed bulk read.
#[derive(Debug, Clone, Copy, PartialEq, Eq, Structural)]
pub enum ReadAction {
    /// Wait for the given number of milliseconds, then read again.
    RetryAfter(u64),
    /// Stop reading: the batch yields no pools, and the run goes on.
    GiveUp,
    /// End the run with the given error.
    Abort(PoolSyncError),
}

/// The state and the action that follow a failed bulk read, by the kind of
/// the failure: a failure at the remote end is retried as `retry_decided`
/// says, until the retries are used up and the batch is given up; an answer
/// of the wrong shape is never retried and ends the run, and the state stays
/// as it is.
pub open spec fn failure_decided(state: RetryState, failure: ReadFailure, jitter: u64) -> (
    RetryState,
    ReadAction,
) {
    match failure {
        ReadFailure::Rejected(e) => (state, ReadAction::Abort(e)),
        ReadFailure::Remote => match retry_decided(state, jitter).1 {
            RetryAction::RetryAfter(delay) => (
                retry_decided(state, jitter).0,
                ReadAction::RetryAfter(delay),
            ),
            RetryAction::GiveUp => (retry_decided(state, jitter).0, ReadAction::GiveUp),
        },
    }
}

/// Decides what follows a failed bulk read, given the kind of the failure
/// and the jitter to add to a delay.
pub fn read_failure_step(state: RetryState, failure: ReadFailure, jitter: u64) -> (r: (
    RetryState,
    ReadAction,
))
    ensures
        r == failure_decided(state, failure, jitter),
{
    match failure {
        ReadFailure::Rejected(e) => (state, ReadAction::Abort(e)),
        ReadFailure::Remote => {
            let (next, action) = retry_step(state, jitter);
            match action {
                RetryAction::RetryAfter(delay) => (next, ReadAction::RetryAfter(delay)),
                RetryAction::GiveUp => (next, ReadAction::GiveUp),
            }
        },
    }
}

/// Decides what follows a failed bulk read, by the kind of the failure and
/// with a freshly drawn jitter. Whatever the jitter, the decision is the one
/// that `failure_decided` gives for some jitter up to the largest one.
pub fn after_read_failure(state: RetryState, failure: ReadFailure) -> (r: (RetryState, ReadAction))
    ensures
        exists|jitter: u64|
            jitter <= MAX_JITTER && r == #[trigger] failure_decided(state, failure, jitter),
{
    let jitter: u64 = draw_jitter();
    read_failure_step(state, failure, jitter)
}

/// Decides what follows a failed bulk read, with a freshly drawn jitter.
/// Whatever the jitter, the decision is the one that `retry_decided` gives
/// for some jitter up to the largest one.
pub fn after_failure(state: RetryState) -> (r: (RetryState, RetryAction))
    ensures
        exists|jitter: u64| jitter <= MAX_JITTER && r == #[trigger] retry_decided(state, jitter),
{
    let jitter: u64 = draw_jitter();
    retry_step(state, jitter)
}

/// The pools that a bulk read yields: every record is decoded as a pool of
/// the given type, in order, and the pools whose own address or token
/// addresses are zero are dropped. A record that cannot be decoded rejects
/// the whole read.
pub open spec fn records_kept(pool_type: PoolType, records: Seq<Seq<AbiValue>>) -> Result<
    Seq<PoolView>,
    PoolSyncError,
>
    decreases records.len(),
{
    if records.len() == 0 {
        Ok(Seq::empty())
    } else {
        match records_kept(pool_type, records.drop_last()) {
            Err(e) => Err(e),
            Ok(kept) => match pool_decoded(pool_type, records.last()) {
                Err(e) => Err(e),
                Ok(pool) => if pool.is_valid() {
                    Ok(kept.push(pool))
                } else {
                    Ok(kept)
                },
            },
        }
    }
}

/// The pools of a collection, each by its mathematical content.
pub open spec fn pools_view(pools: Seq<Pool>) -> Seq<PoolView> {
    pools.map_values(|pool: Pool| pool@)
}

/// The pools that a bulk read yields are never more than its records.
pub proof fn lemma_records_kept_len(pool_type: PoolType, records: Seq<Seq<AbiValue>>)
    ensures
        records_kept(pool_type, records) is Ok ==> records_kept(pool_type, records)->Ok_0.len()
            <= records.len(),
    decreases records.len(),
{
    if records.len() > 0 {
        lemma_records_kept_len(pool_type, records.drop_last());
    }
}

/// A bulk read that fails on a prefix of the records fails on all of them,
/// with the same error.
pub proof fn lemma_records_prefix_error(pool_type: PoolType, records: Seq<Seq<AbiValue>>, n: int)
    requires
        0 <= n <= records.len(),
        records_kept(pool_type, records.take(n)) is Err,
    ensures
        records_kept(pool_type, records) == records_kept(pool_type, records.take(n)),
    decreases records.len() - n,
{
    if n == records.len() {
        assert(records.take(n) =~= records);
    } else {
        assert(records.drop_last().take(n) =~= records.take(n));
        lemma_records_prefix_error(pool_type, records.drop_last(), n);
    }
}

/// Builds the pools of the given type from the records of a bulk read and
/// keeps the valid ones, in the order of the records.
pub fn pools_from_records(pool_type: PoolType, records: &Vec<Vec<AbiValue>>) -> (r: Result<
    Vec<Pool>,
    PoolSyncError,
>)
    ensures
        match r {
            Ok(pools) => {
                &&& records_kept(pool_type, records_view(records@)) == Ok::<
                    Seq<PoolView>,
                    PoolSyncError,
                >(pools_view(pools@))
                &&& pools@.len() <= records@.len()
            },
            Err(e) => records_kept(pool_type, records_view(records@)) == Err::<
                Seq<PoolView>,
                PoolSyncError,
            >(e),
        },
{
    let ghost all = records_view(records@);
    let mut pools: Vec<Pool> = Vec::new();
    let mut i: usize = 0;
    proof {
        assert(all.take(0) =~= Seq::empty());
        assert(pools_view(pools@) =~= Seq::empty());
    }
    while i < records.len()
        invariant
            i <= records.len(),
            all == records_view(records@),
            records_kept(pool_type, all.take(i as int)) == Ok::<Seq<PoolView>, PoolSyncError>(
                pools_view(pools@),
            ),
        decreases records.len() - i,
    {
        proof {
            assert(all.take(i + 1).drop_last() =~= all.take(i as int));
            assert(all.take(i + 1).last() == records@[i as int]@);
        }
        let ghost before = pools@;
        match pool_type.build_pool(records[i].as_slice()) {
            Ok(pool) => {
                if pool.is_valid() {
                    pools.push(pool);
                    assert(pools_view(pools@) =~= pools_view(before).push(pool@));
                }
            },
            Err(e) => {
                proof {
                    lemma_records_prefix_error(pool_type, all, i + 1);
                }
                return Err(e);
            },
        }
        i += 1;
    }
    proof {
        assert(all.take(i as int) =~= all);
        lemma_records_kept_len(pool_type, all);
    }
    Ok(pools)
}

/// The pools that the answer of a bulk read yields: the answer is decoded
/// into records under the layout, and the records into pools of the given
/// type, of which the valid ones are kept.
pub open spec fn answer_decoded(pool_type: PoolType, layout: Seq<AbiType>, answer: Seq<u8>) -> Result<
    Seq<PoolView>,
    PoolSyncError,
> {
    match records_decoded(layout, answer) {
        Err(e) => Err(e),
        Ok(records) => records_kept(pool_type, records),
    }
}

/// Builds the pools of a protocol from the answer of a bulk read.
pub fn pools_from_answer<F: PoolFetcher>(fetcher: &F, answer: &[u8]) -> (r: Result<
    Vec<Pool>,
    PoolSyncError,
>)
    ensures
        match r {
            Ok(pools) => answer_decoded(
                fetcher.described_type(),
                fetcher.record_layout(),
                answer@,
            ) == Ok::<Seq<PoolView>, PoolSyncError>(pools_view(pools@)),
            Err(e) => answer_decoded(fetcher.described_type(), fetcher.record_layout(), answer@)
                == Err::<Seq<PoolView>, PoolSyncError>(e),
        },
{
    let layout: Vec<AbiType> = fetcher.get_pool_repr();
    match decode_records(layout.as_slice(), answer) {
        Ok(records) => pools_from_records(fetcher.pool_type(), &records),
        Err(e) => Err(e),
    }
}

/// Stores the token symbols that were read for a pool. A symbol that could
/// not be read leaves the name as it is.
pub fn apply_symbols(pool: &mut Pool, token0: Option<String>, token1: Option<String>)
    ensures
        final(pool)@ == ({
            let first = match token0 {
                Some(name) => old(pool)@.with_token0_name(name@),
                None => old(pool)@,
            };
            match token1 {
                Some(name) => first.with_token1_name(name@),
                None => first,
            }
        }),
{
    if let Some(name) = token0 {
        Pool::update_token0_name(pool, name);
    }
    if let Some(name) = token1 {
        Pool::update_token1_name(pool, name);
    }
}

} // verus!
