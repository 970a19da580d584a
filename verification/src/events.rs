//! The pool events that change a pool's state, and how a ledger log encodes
//! them.
//!
//! A log carries the hash of its event's signature as its first topic, the
//! event's indexed fields as further topics, and the other fields as
//! consecutive 32-byte words of its data.

use vstd::prelude::*;
use crate::errors::PoolSyncError;
use crate::pools::pool_structures::v3_structure::{MAX_EVENT_TICK, MIN_EVENT_TICK};
use crate::pools::PoolType;
use crate::primitives::{read_word, word_from_be, Address, U256};

verus! {

/// A state-changing event of a pool.
#[derive(Debug, Clone, Copy, PartialEq, Eq, Structural)]
pub enum PoolEvent {
    /// Liquidity was added over the range from `tick_lower` to `tick_upper`.
    Mint { tick_lower: i32, tick_upper: i32, amount: u128 },
    /// Liquidity was removed from the range from `tick_lower` to `tick_upper`.
    Burn { tick_lower: i32, tick_upper: i32, amount: u128 },
    /// A swap left the pool at the given tick, price and aggregate liquidity.
    Swap { tick: i32, sqrt_price: U256, liquidity: u128 },
    /// The reserves of a constant-product pool were set.
    Sync { reserve0: U256, reserve1: U256 },
}

/// An event together with the pool that emitted it.
#[derive(Debug, Clone, Copy, PartialEq, Eq)]
pub struct PoolLog {
    pub address: Address,
    pub event: PoolEvent,
}

/// A log as the ledger reports it.
#[derive(Debug, Clone)]
pub struct RawLog {
    /// The contract that emitted the log.
    pub address: Address,
    /// The topics, each a 32-byte word.
    pub topics: Vec<U256>,
    /// The data.
    pub data: Vec<u8>,
}

/// The signature of the event that reports added liquidity.
pub const MINT_SIGNATURE: &'static str = "Mint(address,address,int24,int24,uint128,uint256,uint256)";

/// The signature of the event that reports removed liquidity.
pub const BURN_SIGNATURE: &'static str = "Burn(address,int24,int24,uint128,uint256,uint256)";

/// The signature of the event that reports a swap.
pub const SWAP_SIGNATURE: &'static str = "Swap(address,address,int256,int256,uint160,uint128,int24)";

/// The signature of the event that reports new reserves.
pub const SYNC_SIGNATURE: &'static str = "Sync(uint112,uint112)";

/// The signatures of the events that change the pools of a family: mints,
/// burns and swaps for concentrated liquidity, reserve-syncs for constant
/// products.
pub fn event_signatures(pool_type: PoolType) -> (r: Vec<&'static str>)
    ensures
        r@ == (if pool_type.spec_is_v3() {
            seq![MINT_SIGNATURE, BURN_SIGNATURE, SWAP_SIGNATURE]
        } else {
            seq![SYNC_SIGNATURE]
        }),
{
    if pool_type.is_v3() {
        let r = vec![MINT_SIGNATURE, BURN_SIGNATURE, SWAP_SIGNATURE];
        assert(r@ =~= seq![MINT_SIGNATURE, BURN_SIGNATURE, SWAP_SIGNATURE]);
        r
    } else {
        let r = vec![SYNC_SIGNATURE];
        assert(r@ =~= seq![SYNC_SIGNATURE]);
        r
    }
}

/// The first topic of a mint: the hash of its signature.
pub open spec fn spec_mint_topic() -> U256 {
    U256 {
        w3: 0x7a53080ba414158b,
        w2: 0xe7ec69b987b5fb7d,
        w1: 0x07dee101fe85488f,
        w0: 0x0853ae16239d0bde,
    }
}

/// The first topic of a burn: the hash of its signature.
pub open spec fn spec_burn_topic() -> U256 {
    U256 {
        w3: 0x0c396cd989a39f44,
        w2: 0x59b5fa1aed6a9a8d,
        w1: 0xcdbc45908acfd67e,
        w0: 0x028cd568da98982c,
    }
}

/// The first topic of a swap: the hash of its signature.
pub open spec fn spec_swap_topic() -> U256 {
    U256 {
        w3: 0xc42079f94a6350d7,
        w2: 0xe6235f29174924f9,
        w1: 0x28cc2ac818eb64fe,
        w0: 0xd8004e115fbcca67,
    }
}

/// The first topic of a reserve-sync: the hash of its signature.
pub open spec fn spec_sync_topic() -> U256 {
    U256 {
        w3: 0x1c411e9a96e07124,
        w2: 0x1c2f21f7726b17ae,
        w1: 0x89e3cab4c78be50e,
        w0: 0x062b03a9fffbbad1,
    }
}

/// The first topic of a mint.
pub fn mint_topic() -> (t: U256)
    ensures
        t == spec_mint_topic(),
{
    U256 {
        w3: 0x7a53080ba414158b,
        w2: 0xe7ec69b987b5fb7d,
        w1: 0x07dee101fe85488f,
        w0: 0x0853ae16239d0bde,
    }
}

/// The first topic of a burn.
pub fn burn_topic() -> (t: U256)
    ensures
        t == spec_burn_topic(),
{
    U256 {
        w3: 0x0c396cd989a39f44,
        w2: 0x59b5fa1aed6a9a8d,
        w1: 0xcdbc45908acfd67e,
        w0: 0x028cd568da98982c,
    }
}

/// The first topic of a swap.
pub fn swap_topic() -> (t: U256)
    ensures
        t == spec_swap_topic(),
{
    U256 {
        w3: 0xc42079f94a6350d7,
        w2: 0xe6235f29174924f9,
        w1: 0x28cc2ac818eb64fe,
        w0: 0xd8004e115fbcca67,
    }
}

/// The first topic of a reserve-sync.
pub fn sync_topic() -> (t: U256)
    ensures
        t == spec_sync_topic(),
{
    U256 {
        w3: 0x1c411e9a96e07124,
        w2: 0x1c2f21f7726b17ae,
        w1: 0x89e3cab4c78be50e,
        w0: 0x062b03a9fffbbad1,
    }
}

/// Whether a word read as two's complement is a number of 24 bits.
pub open spec fn fits_i24(w: U256) -> bool {
    MIN_EVENT_TICK <= w.signed_value() <= MAX_EVENT_TICK
}

/// Whether a word is a number below two to the power 112.
pub open spec fn fits_u112(w: U256) -> bool {
    w.w3 == 0 && w.w2 == 0 && w.w1 < 0x1_0000_0000_0000
}

/// Whether a word is a number below two to the power 128.
pub open spec fn fits_u128(w: U256) -> bool {
    w.w3 == 0 && w.w2 == 0
}

/// Whether a word is a number below two to the power 160.
pub open spec fn fits_u160(w: U256) -> bool {
    w.w3 == 0 && w.w2 < 0x1_0000_0000
}

/// Word `index` of a log's data.
pub open spec fn data_word(data: Seq<u8>, index: int) -> U256 {
    word_from_be(data.subrange(32 * index, 32 * index + 32))
}

/// The mint that a log with the mint topic encodes: the tick range in the
/// third and fourth topic, the amount in the second word of the data.
pub open spec fn mint_decoded(topics: Seq<U256>, data: Seq<u8>) -> Result<PoolEvent, PoolSyncError> {
    if topics.len() != 4 || data.len() != 128 || !fits_i24(topics[2]) || !fits_i24(topics[3])
        || !fits_u128(data_word(data, 1)) {
        Err(PoolSyncError::MalformedRecord)
    } else {
        Ok(
            PoolEvent::Mint {
                tick_lower: topics[2].signed_value() as i32,
                tick_upper: topics[3].signed_value() as i32,
                amount: data_word(data, 1).value() as u128,
            },
        )
    }
}

/// The burn that a log with the burn topic encodes: the tick range in the
/// third and fourth topic, the amount in the first word of the data.
pub open spec fn burn_decoded(topics: Seq<U256>, data: Seq<u8>) -> Result<PoolEvent, PoolSyncError> {
    if topics.len() != 4 || data.len() != 96 || !fits_i24(topics[2]) || !fits_i24(topics[3])
        || !fits_u128(data_word(data, 0)) {
        Err(PoolSyncError::MalformedRecord)
    } else {
        Ok(
            PoolEvent::Burn {
                tick_lower: topics[2].signed_value() as i32,
                tick_upper: topics[3].signed_value() as i32,
                amount: data_word(data, 0).value() as u128,
            },
        )
    }
}

/// The swap that a log with the swap topic encodes: price, liquidity and
/// tick in the third, fourth and fifth word of the data.
pub open spec fn swap_decoded(topics: Seq<U256>, data: Seq<u8>) -> Result<PoolEvent, PoolSyncError> {
    if topics.len() != 3 || data.len() != 160 || !fits_u160(data_word(data, 2)) || !fits_u128(
        data_word(data, 3),
    ) || !fits_i24(data_word(data, 4)) {
        Err(PoolSyncError::MalformedRecord)
    } else {
        Ok(
            PoolEvent::Swap {
                tick: data_word(data, 4).signed_value() as i32,
                sqrt_price: data_word(data, 2),
                liquidity: data_word(data, 3).value() as u128,
            },
        )
    }
}

/// The reserve-sync that a log with the sync topic encodes: the reserves in
/// the two words of the data.
pub open spec fn sync_decoded(topics: Seq<U256>, data: Seq<u8>) -> Result<PoolEvent, PoolSyncError> {
    if topics.len() != 1 || data.len() != 64 || !fits_u112(data_word(data, 0)) || !fits_u112(
        data_word(data, 1),
    ) {
        Err(PoolSyncError::MalformedRecord)
    } else {
        Ok(PoolEvent::Sync { reserve0: data_word(data, 0), reserve1: data_word(data, 1) })
    }
}

/// The event that a log encodes, told by its first topic; none for a log
/// without topics or with the topic of another event. A log that carries
/// the topic of a pool event without having that event's shape is rejected.
pub open spec fn event_decoded(topics: Seq<U256>, data: Seq<u8>) -> Result<
    Option<PoolEvent>,
    PoolSyncError,
> {
    if topics.len() == 0 {
        Ok(None)
    } else {
        let decoded = if topics[0] == spec_burn_topic() {
            Some(burn_decoded(topics, data))
        } else if topics[0] == spec_mint_topic() {
            Some(mint_decoded(topics, data))
        } else if topics[0] == spec_swap_topic() {
            Some(swap_decoded(topics, data))
        } else if topics[0] == spec_sync_topic() {
            Some(sync_decoded(topics, data))
        } else {
            None
        };
        match decoded {
            None => Ok(None),
            Some(Ok(event)) => Ok(Some(event)),
            Some(Err(e)) => Err(e),
        }
    }
}

/// Reads a word as a tick of 24 bits.
pub fn tick_from(w: &U256) -> (r: Option<i32>)
    ensures
        r == (if fits_i24(*w) {
            Some(w.signed_value() as i32)
        } else {
            None
        }),
{
    match w.to_i32() {
        Some(t) => if MIN_EVENT_TICK <= t && t <= MAX_EVENT_TICK {
            Some(t)
        } else {
            None
        },
        None => None,
    }
}

/// Reads word `index` of a log's data, where the data holds it.
pub fn word_of(data: &[u8], index: usize) -> (r: Option<U256>)
    ensures
        r == (if 32 * index + 32 <= data@.len() {
            Some(data_word(data@, index as int))
        } else {
            None
        }),
{
    assert(data@.len() == data.len());
    match index.checked_mul(32) {
        Some(offset) => read_word(data, offset),
        None => None,
    }
}

/// Decodes the event that a log encodes.
pub fn decode_event(log: &RawLog) -> (r: Result<Option<PoolEvent>, PoolSyncError>)
    ensures
        r == event_decoded(log.topics@, log.data@),
{
    if log.topics.len() == 0 {
        return Ok(None);
    }
    let first: U256 = log.topics[0];
    let data: &[u8] = log.data.as_slice();
    if first == burn_topic() {
        if log.topics.len() != 4 || data.len() != 96 {
            return Err(PoolSyncError::MalformedRecord);
        }
        match (tick_from(&log.topics[2]), tick_from(&log.topics[3]), word_of(data, 0)) {
            (Some(tick_lower), Some(tick_upper), Some(word)) => match word.to_u128() {
                Some(amount) => {
                    if word.w2 != 0 || word.w3 != 0 {
                        return Err(PoolSyncError::MalformedRecord);
                    }
                    Ok(Some(PoolEvent::Burn { tick_lower, tick_upper, amount }))
                },
                None => Err(PoolSyncError::MalformedRecord),
            },
            _ => Err(PoolSyncError::MalformedRecord),
        }
    } else if first == mint_topic() {
        if log.topics.len() != 4 || data.len() != 128 {
            return Err(PoolSyncError::MalformedRecord);
        }
        match (tick_from(&log.topics[2]), tick_from(&log.topics[3]), word_of(data, 1)) {
            (Some(tick_lower), Some(tick_upper), Some(word)) => match word.to_u128() {
                Some(amount) => {
                    if word.w2 != 0 || word.w3 != 0 {
                        return Err(PoolSyncError::MalformedRecord);
                    }
                    Ok(Some(PoolEvent::Mint { tick_lower, tick_upper, amount }))
                },
                None => Err(PoolSyncError::MalformedRecord),
            },
            _ => Err(PoolSyncError::MalformedRecord),
        }
    } else if first == swap_topic() {
        if log.topics.len() != 3 || data.len() != 160 {
            return Err(PoolSyncError::MalformedRecord);
        }
        match (word_of(data, 2), word_of(data, 3), word_of(data, 4)) {
            (Some(sqrt_price), Some(word), Some(last)) => {
                if sqrt_price.w3 != 0 || sqrt_price.w2 >= 0x1_0000_0000 {
                    return Err(PoolSyncError::MalformedRecord);
                }
                match (word.to_u128(), tick_from(&last)) {
                    (Some(liquidity), Some(tick)) => Ok(
                        Some(PoolEvent::Swap { tick, sqrt_price, liquidity }),
                    ),
                    _ => Err(PoolSyncError::MalformedRecord),
                }
            },
            _ => Err(PoolSyncError::MalformedRecord),
        }
    } else if first == sync_topic() {
        if log.topics.len() != 1 || data.len() != 64 {
            return Err(PoolSyncError::MalformedRecord);
        }
        match (word_of(data, 0), word_of(data, 1)) {
            (Some(reserve0), Some(reserve1)) => {
                if reserve0.w3 != 0 || reserve0.w2 != 0 || reserve0.w1 >= 0x1_0000_0000_0000
                    || reserve1.w3 != 0 || reserve1.w2 != 0 || reserve1.w1
                    >= 0x1_0000_0000_0000 {
                    return Err(PoolSyncError::MalformedRecord);
                }
                Ok(Some(PoolEvent::Sync { reserve0, reserve1 }))
            },
            _ => Err(PoolSyncError::MalformedRecord),
        }
    } else {
        Ok(None)
    }
}

/// The ticks that a decoded event names fit 24 bits.
pub proof fn lemma_decoded_ticks_fit(topics: Seq<U256>, data: Seq<u8>)
    requires
        event_decoded(topics, data) is Ok,
        event_decoded(topics, data)->Ok_0 is Some,
    ensures
        match event_decoded(topics, data)->Ok_0->Some_0 {
            PoolEvent::Mint { tick_lower, tick_upper, .. } => MIN_EVENT_TICK <= tick_lower
                <= MAX_EVENT_TICK && MIN_EVENT_TICK <= tick_upper <= MAX_EVENT_TICK,
            PoolEvent::Burn { tick_lower, tick_upper, .. } => MIN_EVENT_TICK <= tick_lower
                <= MAX_EVENT_TICK && MIN_EVENT_TICK <= tick_upper <= MAX_EVENT_TICK,
            PoolEvent::Swap { tick, .. } => MIN_EVENT_TICK <= tick <= MAX_EVENT_TICK,
            PoolEvent::Sync { .. } => true,
        },
{
}

/// The pool events that a run of logs encodes, each with the address of its
/// log, in the order of the logs; logs of other events are passed over. One
/// log that carries a pool event's topic without its shape rejects the run.
pub open spec fn logs_decoded(logs: Seq<RawLog>) -> Result<Seq<PoolLog>, PoolSyncError>
    decreases logs.len(),
{
    if logs.len() == 0 {
        Ok(Seq::empty())
    } else {
        match logs_decoded(logs.drop_last()) {
            Err(e) => Err(e),
            Ok(decoded) => match event_decoded(logs.last().topics@, logs.last().data@) {
                Err(e) => Err(e),
                Ok(None) => Ok(decoded),
                Ok(Some(event)) => Ok(
                    decoded.push(PoolLog { address: logs.last().address, event: event }),
                ),
            },
        }
    }
}

/// A run of logs that cannot be decoded up to some log cannot be decoded as
/// a whole.
pub proof fn lemma_logs_prefix_error(logs: Seq<RawLog>, n: int)
    requires
        0 <= n <= logs.len(),
        logs_decoded(logs.take(n)) is Err,
    ensures
        logs_decoded(logs) == logs_decoded(logs.take(n)),
    decreases logs.len() - n,
{
    if n == logs.len() {
        assert(logs.take(n) =~= logs);
    } else {
        assert(logs.drop_last().take(n) =~= logs.take(n));
        lemma_logs_prefix_error(logs.drop_last(), n);
    }
}

/// Decodes the pool events of a run of logs, keeping their order.
pub fn decode_logs(logs: &Vec<RawLog>) -> (r: Result<Vec<PoolLog>, PoolSyncError>)
    ensures
        match r {
            Ok(decoded) => logs_decoded(logs@) == Ok::<Seq<PoolLog>, PoolSyncError>(decoded@),
            Err(e) => logs_decoded(logs@) == Err::<Seq<PoolLog>, PoolSyncError>(e),
        },
{
    let mut decoded: Vec<PoolLog> = Vec::new();
    let mut i: usize = 0;
    proof {
        assert(logs@.take(0) =~= Seq::empty());
    }
    while i < logs.len()
        invariant
            i <= logs.len(),
            logs_decoded(logs@.take(i as int)) == Ok::<Seq<PoolLog>, PoolSyncError>(decoded@),
        decreases logs.len() - i,
    {
        proof {
            assert(logs@.take(i + 1).drop_last() =~= logs@.take(i as int));
            assert(logs@.take(i + 1).last() == logs@[i as int]);
        }
        match decode_event(&logs[i]) {
            Ok(Some(event)) => {
                decoded.push(PoolLog { address: logs[i].address, event });
            },
            Ok(None) => {},
            Err(e) => {
                proof {
                    assert(logs_decoded(logs@.take(i + 1)) == Err::<Seq<PoolLog>, PoolSyncError>(
                        e,
                    ));
                    lemma_logs_prefix_error(logs@, i + 1);
                }
                return Err(e);
            },
        }
        i += 1;
    }
    proof {
        assert(logs@.take(i as int) =~= logs@);
    }
    Ok(decoded)
}

} // verus!
