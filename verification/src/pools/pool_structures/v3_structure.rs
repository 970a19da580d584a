//! Concentrated-liquidity pools: the tick ledger and its bitmap index.

use std::collections::HashMap;
use vstd::prelude::*;
use crate::errors::PoolSyncError;
use crate::events::PoolEvent;
use crate::pools::pool_structures::v3_laws::{
    event_usable, lemma_empty_ledger_consistent, lemma_event_keeps_ledger,
    lemma_position_keeps_ledger,
};
use crate::pools::abi::AbiValue;
use crate::pools::PoolType;
use crate::primitives::{Address, U256};

verus! {

broadcast use vstd::std_specs::hash::group_hash_axioms;

/// What a pool records about one boundary tick.
#[derive(Debug, Clone, Copy, PartialEq, Eq, Structural)]
pub struct TickInfo {
    /// Liquidity added when the price crosses the tick upwards.
    pub liquidity_net: i128,
    /// Whether the tick has ever been referenced by a position.
    pub initialized: bool,
    /// Total liquidity of the positions that use the tick as a boundary.
    pub liquidity_gross: u128,
}

impl TickInfo {
    /// The record of a tick that no position has referenced.
    pub open spec fn spec_default() -> TickInfo {
        TickInfo { liquidity_net: 0, initialized: false, liquidity_gross: 0 }
    }
}

impl Default for TickInfo {
    fn default() -> (r: TickInfo)
        ensures
            r == TickInfo::spec_default(),
    {
        TickInfo { liquidity_net: 0, initialized: false, liquidity_gross: 0 }
    }
}

/// A concentrated-liquidity pool as last reconciled with the ledger.
#[derive(Debug, Clone)]
pub struct UniswapV3Pool {
    pub address: Address,
    pub token0: Address,
    pub token1: Address,
    pub token0_name: String,
    pub token1_name: String,
    pub token0_decimals: u8,
    pub token1_decimals: u8,
    pub liquidity: u128,
    pub sqrt_price: U256,
    pub fee: u32,
    pub tick: i32,
    pub tick_spacing: i32,
    pub tick_bitmap: HashMap<i16, U256>,
    pub ticks: HashMap<i32, TickInfo>,
}

/// The mathematical content of a concentrated-liquidity pool record.
pub struct V3View {
    pub address: Address,
    pub token0: Address,
    pub token1: Address,
    pub token0_name: Seq<char>,
    pub token1_name: Seq<char>,
    pub token0_decimals: u8,
    pub token1_decimals: u8,
    pub liquidity: u128,
    pub sqrt_price: U256,
    pub fee: u32,
    pub tick: i32,
    pub tick_spacing: i32,
    pub tick_bitmap: Map<i16, U256>,
    pub ticks: Map<i32, TickInfo>,
}

impl View for UniswapV3Pool {
    type V = V3View;

    open spec fn view(&self) -> V3View {
        V3View {
            address: self.address,
            token0: self.token0,
            token1: self.token1,
            token0_name: self.token0_name@,
            token1_name: self.token1_name@,
            token0_decimals: self.token0_decimals,
            token1_decimals: self.token1_decimals,
            liquidity: self.liquidity,
            sqrt_price: self.sqrt_price,
            fee: self.fee,
            tick: self.tick,
            tick_spacing: self.tick_spacing,
            tick_bitmap: self.tick_bitmap@,
            ticks: self.ticks@,
        }
    }
}

/// The record kept for `tick`: the stored one, or the default where none is
/// stored.
pub open spec fn info_at(ticks: Map<i32, TickInfo>, tick: i32) -> TickInfo {
    if ticks.contains_key(tick) {
        ticks[tick]
    } else {
        TickInfo::spec_default()
    }
}

/// Gross liquidity at a boundary once `delta` has been applied to it.
pub open spec fn gross_after(info: TickInfo, delta: int) -> int {
    info.liquidity_gross + delta
}

/// Net liquidity at a boundary once `delta` has been applied: added at a
/// lower boundary, taken away at an upper one.
pub open spec fn net_after(info: TickInfo, delta: int, upper: bool) -> int {
    if upper {
        info.liquidity_net - delta
    } else {
        info.liquidity_net + delta
    }
}

/// Whether applying `delta` changes the boundary between referenced and
/// unreferenced.
pub open spec fn gross_flips(info: TickInfo, delta: int) -> bool {
    (gross_after(info, delta) == 0) != (info.liquidity_gross == 0)
}

/// The outcome of applying `delta` to one boundary record: the new record,
/// or the reason for which the update is rejected.
pub open spec fn tick_updated(info: TickInfo, delta: int, upper: bool) -> Result<
    TickInfo,
    PoolSyncError,
> {
    if gross_after(info, delta) < 0 {
        Err(PoolSyncError::LiquidityUnderflow)
    } else if gross_after(info, delta) > u128::MAX {
        Err(PoolSyncError::LiquidityOverflow)
    } else if net_after(info, delta, upper) < i128::MIN || net_after(info, delta, upper)
        > i128::MAX {
        Err(PoolSyncError::LiquidityOverflow)
    } else {
        Ok(
            TickInfo {
                liquidity_net: net_after(info, delta, upper) as i128,
                initialized: info.initialized || info.liquidity_gross == 0,
                liquidity_gross: gross_after(info, delta) as u128,
            },
        )
    }
}

/// The size of a signed quantity.
pub fn magnitude(delta: i128) -> (m: u128)
    ensures
        m == (if delta < 0 {
            -delta
        } else {
            delta as int
        }),
{
    if delta == i128::MIN {
        0x8000_0000_0000_0000_0000_0000_0000_0000u128
    } else if delta < 0 {
        (-delta) as u128
    } else {
        delta as u128
    }
}

/// Applies a liquidity change to one boundary record without storing it.
pub fn apply_to_tick(info: TickInfo, liquidity_delta: i128, upper: bool) -> (r: Result<
    TickInfo,
    PoolSyncError,
>)
    ensures
        r == tick_updated(info, liquidity_delta as int, upper),
{
    let gross_before: u128 = info.liquidity_gross;
    let size: u128 = magnitude(liquidity_delta);
    let gross: u128 = if liquidity_delta < 0 {
        if size > gross_before {
            return Err(PoolSyncError::LiquidityUnderflow);
        }
        gross_before - size
    } else {
        match gross_before.checked_add(size) {
            Some(g) => g,
            None => {
                return Err(PoolSyncError::LiquidityOverflow);
            },
        }
    };
    let moved: Option<i128> = if upper {
        info.liquidity_net.checked_sub(liquidity_delta)
    } else {
        info.liquidity_net.checked_add(liquidity_delta)
    };
    match moved {
        Some(net) => Ok(
            TickInfo {
                liquidity_net: net,
                initialized: info.initialized || gross_before == 0,
                liquidity_gross: gross,
            },
        ),
        None => Err(PoolSyncError::LiquidityOverflow),
    }
}

/// Reads the record kept for `tick`, or the default where none is kept.
pub fn tick_info(pool: &UniswapV3Pool, tick: i32) -> (info: TickInfo)
    ensures
        info == info_at(pool@.ticks, tick),
{
    match pool.ticks.get(&tick) {
        Some(found) => *found,
        None => TickInfo::default(),
    }
}

/// Applies a liquidity change to the record of one boundary tick and tells
/// whether the tick went from unreferenced to referenced or back.
///
/// A rejected update leaves the pool as it was.
pub fn update_tick(pool: &mut UniswapV3Pool, tick: i32, liquidity_delta: i128, upper: bool) -> (r:
    Result<bool, PoolSyncError>)
    ensures
        match r {
            Ok(flipped) => {
                &&& tick_updated(info_at(old(pool)@.ticks, tick), liquidity_delta as int, upper) is Ok
                &&& final(pool)@ == (V3View {
                    ticks: old(pool)@.ticks.insert(
                        tick,
                        tick_updated(
                            info_at(old(pool)@.ticks, tick),
                            liquidity_delta as int,
                            upper,
                        )->Ok_0,
                    ),
                    ..old(pool)@
                })
                &&& flipped == gross_flips(info_at(old(pool)@.ticks, tick), liquidity_delta as int)
            },
            Err(e) => {
                &&& tick_updated(info_at(old(pool)@.ticks, tick), liquidity_delta as int, upper)
                    == Err::<TickInfo, PoolSyncError>(e)
                &&& final(pool)@ == old(pool)@
            },
        },
{
    let before: TickInfo = tick_info(pool, tick);
    match apply_to_tick(before, liquidity_delta, upper) {
        Ok(after) => {
            let flipped: bool = (after.liquidity_gross == 0) != (before.liquidity_gross == 0);
            pool.ticks.insert(tick, after);
            Ok(flipped)
        },
        Err(e) => Err(e),
    }
}

/// Reduces a number to sixteen bits, read as a signed number.
pub open spec fn wrap_i16(x: int) -> int {
    (x + 32768) % 65536 - 32768
}

/// The bitmap word that holds the bit of a compressed tick: the tick divided
/// by 256, rounded down, reduced to sixteen bits.
pub open spec fn bitmap_word(compressed: i32) -> i16 {
    wrap_i16(compressed as int / 256) as i16
}

/// The place of a compressed tick's bit within its word: the tick modulo 256.
pub open spec fn bitmap_bit(compressed: i32) -> u8 {
    (compressed as int % 256) as u8
}

/// Whether `tick / spacing` exists as a signed 32-bit number.
pub open spec fn quotient_defined(tick: i32, spacing: i32) -> bool {
    spacing != 0 && !(tick == i32::MIN && spacing == -1)
}

/// The quotient of two numbers, rounded towards zero.
pub open spec fn quotient_toward_zero(x: int, d: int) -> int {
    if x >= 0 && d > 0 {
        x / d
    } else if x < 0 && d < 0 {
        (-x) / (-d)
    } else if x < 0 {
        -((-x) / d)
    } else {
        -(x / (-d))
    }
}

/// The quotient rounded towards zero is no larger in size than the dividend,
/// and it is the dividend's opposite when the divisor is minus one.
pub proof fn lemma_quotient_bounds(x: int, d: int)
    requires
        d != 0,
    ensures
        x >= 0 ==> -x <= quotient_toward_zero(x, d) <= x,
        x < 0 ==> x <= quotient_toward_zero(x, d) <= -x,
        d == -1 ==> quotient_toward_zero(x, d) == -x,
        d != 1 && d != -1 && x < 0 ==> x < quotient_toward_zero(x, d) < -x,
{
    let a: int = if x < 0 { -x } else { x };
    let b: int = if d < 0 { -d } else { d };
    vstd::arithmetic::div_mod::lemma_div_pos_is_pos(a, b);
    vstd::arithmetic::div_mod::lemma_div_nonincreasing(a, b);
    vstd::arithmetic::div_mod::lemma_div_basics(a);
    if b > 1 && a > 0 {
        vstd::arithmetic::div_mod::lemma_div_is_strictly_smaller(a, b);
    }
}

/// A tick divided by the tick spacing, rounded towards zero.
pub open spec fn compressed_tick(tick: i32, spacing: i32) -> i32 {
    quotient_toward_zero(tick as int, spacing as int) as i32
}

/// The bitmap word stored under `word`, or the empty word where none is
/// stored.
pub open spec fn word_at(bitmap: Map<i16, U256>, word: i16) -> U256 {
    if bitmap.contains_key(word) {
        bitmap[word]
    } else {
        U256::spec_zero()
    }
}

/// Whether the bitmap marks the compressed tick as referenced.
pub open spec fn bit_marked(bitmap: Map<i16, U256>, compressed: i32) -> bool {
    word_at(bitmap, bitmap_word(compressed)).bit(bitmap_bit(compressed) as int)
}

/// The bitmap with the bit of one compressed tick inverted.
pub open spec fn bitmap_flipped(bitmap: Map<i16, U256>, compressed: i32) -> Map<i16, U256> {
    bitmap.insert(
        bitmap_word(compressed),
        word_at(bitmap, bitmap_word(compressed)).spec_toggle(bitmap_bit(compressed) as int),
    )
}

/// Calls `uniswap_v3_math::tick_bitmap::position`, which splits a compressed
/// tick into the index of its bitmap word and the place of its bit there.
/// The contract restates that function: the word index is the tick shifted
/// right by eight bits and cut to sixteen bits, the bit is the tick's
/// remainder modulo 256 cut to eight bits.
#[verifier::external_body]
fn position(compressed: i32) -> (r: (i16, u8))
    ensures
        r.0 == bitmap_word(compressed),
        r.1 == bitmap_bit(compressed),
{
    uniswap_v3_math::tick_bitmap::position(compressed)
}

/// The smallest tick that a 24-bit event field can carry.
pub const MIN_EVENT_TICK: i32 = -8388608;

/// The largest tick that a 24-bit event field can carry.
pub const MAX_EVENT_TICK: i32 = 8388607;

/// Splits a compressed tick into its bitmap word and its bit within the word.
///
/// For every compressed tick of 24 bits the pair gives the tick back as
/// `word * 256 + bit`, for negative ticks too.
pub fn bitmap_position(compressed: i32) -> (r: (i16, u8))
    ensures
        r.0 == bitmap_word(compressed),
        r.1 == bitmap_bit(compressed),
        MIN_EVENT_TICK <= compressed <= MAX_EVENT_TICK ==> r.0 * 256 + r.1 == compressed,
{
    position(compressed)
}

/// Divides a tick by the tick spacing, rounding towards zero, where the
/// quotient exists.
pub fn compress(tick: i32, tick_spacing: i32) -> (r: Option<i32>)
    ensures
        r == (if quotient_defined(tick, tick_spacing) {
            Some(compressed_tick(tick, tick_spacing))
        } else {
            None
        }),
{
    proof {
        if tick_spacing != 0 {
            lemma_quotient_bounds(tick as int, tick_spacing as int);
        }
    }
    tick.checked_div(tick_spacing)
}

/// Inverts the bitmap bit of `tick` under the given tick spacing.
///
/// A spacing by which the tick cannot be divided is rejected, and the pool
/// stays as it was.
pub fn flip_tick(pool: &mut UniswapV3Pool, tick: i32, tick_spacing: i32) -> (r: Result<
    (),
    PoolSyncError,
>)
    ensures
        match r {
            Ok(_) => {
                &&& quotient_defined(tick, tick_spacing)
                &&& final(pool)@ == (V3View {
                    tick_bitmap: bitmap_flipped(
                        old(pool)@.tick_bitmap,
                        compressed_tick(tick, tick_spacing),
                    ),
                    ..old(pool)@
                })
            },
            Err(e) => {
                &&& e == PoolSyncError::InvalidTickSpacing
                &&& !quotient_defined(tick, tick_spacing)
                &&& final(pool)@ == old(pool)@
            },
        },
{
    let compressed: i32 = match compress(tick, tick_spacing) {
        Some(c) => c,
        None => {
            return Err(PoolSyncError::InvalidTickSpacing);
        },
    };
    let (word_pos, bit_pos) = bitmap_position(compressed);
    let mask: U256 = U256::single_bit(bit_pos);
    let word: U256 = match pool.tick_bitmap.get(&word_pos) {
        Some(found) => *found,
        None => U256::zero(),
    };
    pool.tick_bitmap.insert(word_pos, word.xor(&mask));
    Ok(())
}

/// Whether a tick can bound a position of a pool with the given spacing: the
/// spacing is positive, the tick fits the 24 bits of an event's tick field,
/// and the spacing divides it.
pub open spec fn tick_usable(tick: i32, spacing: i32) -> bool {
    spacing > 0 && MIN_EVENT_TICK <= tick <= MAX_EVENT_TICK && tick as int % spacing as int == 0
}

/// The invariant of the tick ledger and its bitmap: every recorded tick is
/// usable, referenced and marked as initialized, and a usable tick is
/// recorded exactly when its bitmap bit is set.
pub open spec fn ledger_consistent(v: V3View) -> bool {
    &&& v.tick_spacing > 0
    &&& forall|t: i32| #[trigger]
        v.ticks.contains_key(t) ==> tick_usable(t, v.tick_spacing) && v.ticks[t].liquidity_gross
            > 0 && v.ticks[t].initialized
    &&& forall|t: i32|
        tick_usable(t, v.tick_spacing) ==> (#[trigger] v.ticks.contains_key(t) <==> bit_marked(
            v.tick_bitmap,
            compressed_tick(t, v.tick_spacing),
        ))
}

/// The bitmap after the flips that a change of position calls for.
pub open spec fn bitmap_after(
    bitmap: Map<i16, U256>,
    spacing: i32,
    tick_lower: i32,
    flipped_lower: bool,
    tick_upper: i32,
    flipped_upper: bool,
) -> Map<i16, U256> {
    let first = if flipped_lower {
        bitmap_flipped(bitmap, compressed_tick(tick_lower, spacing))
    } else {
        bitmap
    };
    if flipped_upper {
        bitmap_flipped(first, compressed_tick(tick_upper, spacing))
    } else {
        first
    }
}

/// The tick ledger once the records that a burn has emptied are dropped.
pub open spec fn ticks_pruned(
    ticks: Map<i32, TickInfo>,
    burning: bool,
    tick_lower: i32,
    flipped_lower: bool,
    tick_upper: i32,
    flipped_upper: bool,
) -> Map<i32, TickInfo> {
    let first = if burning && flipped_lower {
        ticks.remove(tick_lower)
    } else {
        ticks
    };
    if burning && flipped_upper {
        first.remove(tick_upper)
    } else {
        first
    }
}

/// The pool after a liquidity change of `delta` over the range from
/// `tick_lower` to `tick_upper`, as far as ticks and bitmap go: both
/// boundary records are updated, the lower one first; the bitmap bit of each
/// boundary whose gross liquidity left or reached zero is inverted; and a
/// boundary that a burn has emptied is dropped from the ledger.
pub open spec fn position_updated(v: V3View, tick_lower: i32, tick_upper: i32, delta: int) -> Result<
    V3View,
    PoolSyncError,
> {
    if delta == 0 {
        Ok(v)
    } else {
        let before_lower = info_at(v.ticks, tick_lower);
        match tick_updated(before_lower, delta, false) {
            Err(e) => Err(e),
            Ok(after_lower) => {
                let with_lower = v.ticks.insert(tick_lower, after_lower);
                let before_upper = info_at(with_lower, tick_upper);
                match tick_updated(before_upper, delta, true) {
                    Err(e) => Err(e),
                    Ok(after_upper) => {
                        let with_both = with_lower.insert(tick_upper, after_upper);
                        let flipped_lower = gross_flips(before_lower, delta);
                        let flipped_upper = gross_flips(before_upper, delta);
                        if (flipped_lower && !quotient_defined(tick_lower, v.tick_spacing)) || (
                        flipped_upper && !quotient_defined(tick_upper, v.tick_spacing)) {
                            Err(PoolSyncError::InvalidTickSpacing)
                        } else {
                            Ok(
                                V3View {
                                    ticks: ticks_pruned(
                                        with_both,
                                        delta < 0,
                                        tick_lower,
                                        flipped_lower,
                                        tick_upper,
                                        flipped_upper,
                                    ),
                                    tick_bitmap: bitmap_after(
                                        v.tick_bitmap,
                                        v.tick_spacing,
                                        tick_lower,
                                        flipped_lower,
                                        tick_upper,
                                        flipped_upper,
                                    ),
                                    ..v
                                },
                            )
                        }
                    },
                }
            },
        }
    }
}

/// Whether a liquidity change over a range moves the pool's aggregate
/// liquidity: only outside the initial sync, and only where the current tick
/// lies within the range.
pub open spec fn liquidity_applies(
    v: V3View,
    tick_lower: i32,
    tick_upper: i32,
    delta: int,
    is_initial_sync: bool,
) -> bool {
    delta != 0 && !is_initial_sync && tick_lower <= v.tick < tick_upper
}

/// The pool after a mint (`delta > 0`) or a burn (`delta < 0`) over a range.
pub open spec fn position_modified(
    v: V3View,
    tick_lower: i32,
    tick_upper: i32,
    delta: int,
    is_initial_sync: bool,
) -> Result<V3View, PoolSyncError> {
    match position_updated(v, tick_lower, tick_upper, delta) {
        Err(e) => Err(e),
        Ok(u) => if liquidity_applies(v, tick_lower, tick_upper, delta, is_initial_sync) {
            if v.liquidity + delta < 0 {
                Err(PoolSyncError::LiquidityUnderflow)
            } else if v.liquidity + delta > u128::MAX {
                Err(PoolSyncError::LiquidityOverflow)
            } else {
                Ok(V3View { liquidity: (v.liquidity + delta) as u128, ..u })
            }
        } else {
            Ok(u)
        },
    }
}

/// Tells whether a change of position would be accepted, without making it.
pub fn check_position(pool: &UniswapV3Pool, tick_lower: i32, tick_upper: i32, liquidity_delta: i128) -> (r:
    Result<(), PoolSyncError>)
    ensures
        match r {
            Ok(_) => position_updated(pool@, tick_lower, tick_upper, liquidity_delta as int) is Ok,
            Err(e) => position_updated(pool@, tick_lower, tick_upper, liquidity_delta as int)
                == Err::<V3View, PoolSyncError>(e),
        },
{
    if liquidity_delta == 0 {
        return Ok(());
    }
    let before_lower: TickInfo = tick_info(pool, tick_lower);
    let after_lower: TickInfo = match apply_to_tick(before_lower, liquidity_delta, false) {
        Ok(info) => info,
        Err(e) => {
            return Err(e);
        },
    };
    let before_upper: TickInfo = if tick_upper == tick_lower {
        after_lower
    } else {
        tick_info(pool, tick_upper)
    };
    let after_upper: TickInfo = match apply_to_tick(before_upper, liquidity_delta, true) {
        Ok(info) => info,
        Err(e) => {
            return Err(e);
        },
    };
    let flipped_lower: bool = (after_lower.liquidity_gross == 0) != (before_lower.liquidity_gross
        == 0);
    let flipped_upper: bool = (after_upper.liquidity_gross == 0) != (before_upper.liquidity_gross
        == 0);
    if flipped_lower && compress(tick_lower, pool.tick_spacing).is_none() {
        return Err(PoolSyncError::InvalidTickSpacing);
    }
    if flipped_upper && compress(tick_upper, pool.tick_spacing).is_none() {
        return Err(PoolSyncError::InvalidTickSpacing);
    }
    Ok(())
}

/// Makes a change of position that is known to be acceptable.
fn apply_position(pool: &mut UniswapV3Pool, tick_lower: i32, tick_upper: i32, liquidity_delta: i128)
    requires
        position_updated(old(pool)@, tick_lower, tick_upper, liquidity_delta as int) is Ok,
    ensures
        final(pool)@ == position_updated(
            old(pool)@,
            tick_lower,
            tick_upper,
            liquidity_delta as int,
        )->Ok_0,
{
    let mut flipped_lower: bool = false;
    let mut flipped_upper: bool = false;
    if liquidity_delta != 0 {
        let spacing: i32 = pool.tick_spacing;
        if let Ok(flipped) = update_tick(pool, tick_lower, liquidity_delta, false) {
            flipped_lower = flipped;
        }
        if let Ok(flipped) = update_tick(pool, tick_upper, liquidity_delta, true) {
            flipped_upper = flipped;
        }
        if flipped_lower {
            let _ = flip_tick(pool, tick_lower, spacing);
        }
        if flipped_upper {
            let _ = flip_tick(pool, tick_upper, spacing);
        }
    }
    if liquidity_delta < 0 {
        if flipped_lower {
            pool.ticks.remove(&tick_lower);
        }
        if flipped_upper {
            pool.ticks.remove(&tick_upper);
        }
    }
}

/// Updates both boundary ticks of a position, the bitmap bits of those that
/// flipped, and drops the records that a burn has emptied.
///
/// A rejected change leaves the pool as it was.
pub fn update_position(
    pool: &mut UniswapV3Pool,
    tick_lower: i32,
    tick_upper: i32,
    liquidity_delta: i128,
) -> (r: Result<(), PoolSyncError>)
    ensures
        match r {
            Ok(_) => position_updated(old(pool)@, tick_lower, tick_upper, liquidity_delta as int)
                == Ok::<V3View, PoolSyncError>(final(pool)@),
            Err(e) => {
                &&& position_updated(old(pool)@, tick_lower, tick_upper, liquidity_delta as int)
                    == Err::<V3View, PoolSyncError>(e)
                &&& final(pool)@ == old(pool)@
            },
        },
{
    match check_position(pool, tick_lower, tick_upper, liquidity_delta) {
        Ok(_) => {
            apply_position(pool, tick_lower, tick_upper, liquidity_delta);
            Ok(())
        },
        Err(e) => Err(e),
    }
}

/// Folds a mint (positive delta) or a burn (negative delta) over the range
/// from `tick_lower` to `tick_upper` into the pool. Outside the initial sync
/// the aggregate liquidity moves by the same delta where the current tick
/// lies within the range.
///
/// A rejected change leaves the pool as it was.
pub fn modify_position(
    pool: &mut UniswapV3Pool,
    tick_lower: i32,
    tick_upper: i32,
    liquidity_delta: i128,
    is_initial_sync: bool,
) -> (r: Result<(), PoolSyncError>)
    ensures
        match r {
            Ok(_) => position_modified(
                old(pool)@,
                tick_lower,
                tick_upper,
                liquidity_delta as int,
                is_initial_sync,
            ) == Ok::<V3View, PoolSyncError>(final(pool)@),
            Err(e) => {
                &&& position_modified(
                    old(pool)@,
                    tick_lower,
                    tick_upper,
                    liquidity_delta as int,
                    is_initial_sync,
                ) == Err::<V3View, PoolSyncError>(e)
                &&& final(pool)@ == old(pool)@
            },
        },
        ledger_consistent(old(pool)@) && tick_usable(tick_lower, old(pool)@.tick_spacing)
            && tick_usable(tick_upper, old(pool)@.tick_spacing) ==> ledger_consistent(
            final(pool)@,
        ),
{
    proof {
        if ledger_consistent(pool@) && tick_usable(tick_lower, pool@.tick_spacing) && tick_usable(
            tick_upper,
            pool@.tick_spacing,
        ) && position_modified(
            pool@,
            tick_lower,
            tick_upper,
            liquidity_delta as int,
            is_initial_sync,
        ) is Ok {
            lemma_position_keeps_ledger(
                pool@,
                tick_lower,
                tick_upper,
                liquidity_delta as int,
                is_initial_sync,
            );
        }
    }
    if let Err(e) = check_position(pool, tick_lower, tick_upper, liquidity_delta) {
        return Err(e);
    }
    let mut liquidity: u128 = pool.liquidity;
    if liquidity_delta != 0 && !is_initial_sync {
        if pool.tick >= tick_lower && pool.tick < tick_upper {
            let size: u128 = magnitude(liquidity_delta);
            if liquidity_delta < 0 {
                if size > liquidity {
                    return Err(PoolSyncError::LiquidityUnderflow);
                }
                liquidity = liquidity - size;
            } else {
                liquidity = match liquidity.checked_add(size) {
                    Some(sum) => sum,
                    None => {
                        return Err(PoolSyncError::LiquidityOverflow);
                    },
                };
            }
        }
    }
    apply_position(pool, tick_lower, tick_upper, liquidity_delta);
    pool.liquidity = liquidity;
    Ok(())
}

/// The liquidity change that a mint or a burn of `amount` stands for, where
/// it fits a signed 128-bit quantity.
pub open spec fn signed_amount(amount: u128, burning: bool) -> Result<int, PoolSyncError> {
    if amount > i128::MAX {
        Err(PoolSyncError::LiquidityOverflow)
    } else if burning {
        Ok(-(amount as int))
    } else {
        Ok(amount as int)
    }
}

/// The pool after a mint or a burn of `amount` over a range.
pub open spec fn amount_applied(
    v: V3View,
    tick_lower: i32,
    tick_upper: i32,
    amount: u128,
    burning: bool,
    is_initial_sync: bool,
) -> Result<V3View, PoolSyncError> {
    match signed_amount(amount, burning) {
        Err(e) => Err(e),
        Ok(delta) => position_modified(v, tick_lower, tick_upper, delta, is_initial_sync),
    }
}

/// The pool after a swap: tick, price and aggregate liquidity take the values
/// that the swap reports.
pub open spec fn swap_applied(v: V3View, tick: i32, sqrt_price: U256, liquidity: u128) -> V3View {
    V3View { tick: tick, sqrt_price: sqrt_price, liquidity: liquidity, ..v }
}

/// The pool after an event: a mint, a burn or a swap is folded in, and an
/// event of another kind leaves the pool as it is.
pub open spec fn event_applied(v: V3View, event: PoolEvent, is_initial_sync: bool) -> Result<
    V3View,
    PoolSyncError,
> {
    match event {
        PoolEvent::Mint { tick_lower, tick_upper, amount } => amount_applied(
            v,
            tick_lower,
            tick_upper,
            amount,
            false,
            is_initial_sync,
        ),
        PoolEvent::Burn { tick_lower, tick_upper, amount } => amount_applied(
            v,
            tick_lower,
            tick_upper,
            amount,
            true,
            is_initial_sync,
        ),
        PoolEvent::Swap { tick, sqrt_price, liquidity } => Ok(
            swap_applied(v, tick, sqrt_price, liquidity),
        ),
        PoolEvent::Sync { .. } => Ok(v),
    }
}

/// Folds a burn of `amount` over a range into the pool: a mint of the
/// opposite amount.
pub fn process_burn(
    pool: &mut UniswapV3Pool,
    tick_lower: i32,
    tick_upper: i32,
    amount: u128,
    is_initial_sync: bool,
) -> (r: Result<(), PoolSyncError>)
    ensures
        match r {
            Ok(_) => amount_applied(old(pool)@, tick_lower, tick_upper, amount, true, is_initial_sync)
                == Ok::<V3View, PoolSyncError>(final(pool)@),
            Err(e) => {
                &&& amount_applied(
                    old(pool)@,
                    tick_lower,
                    tick_upper,
                    amount,
                    true,
                    is_initial_sync,
                ) == Err::<V3View, PoolSyncError>(e)
                &&& final(pool)@ == old(pool)@
            },
        },
{
    if amount > 0x7fff_ffff_ffff_ffff_ffff_ffff_ffff_ffffu128 {
        return Err(PoolSyncError::LiquidityOverflow);
    }
    modify_position(pool, tick_lower, tick_upper, -(amount as i128), is_initial_sync)
}

/// Folds a mint of `amount` over a range into the pool.
pub fn process_mint(
    pool: &mut UniswapV3Pool,
    tick_lower: i32,
    tick_upper: i32,
    amount: u128,
    is_initial_sync: bool,
) -> (r: Result<(), PoolSyncError>)
    ensures
        match r {
            Ok(_) => amount_applied(
                old(pool)@,
                tick_lower,
                tick_upper,
                amount,
                false,
                is_initial_sync,
            ) == Ok::<V3View, PoolSyncError>(final(pool)@),
            Err(e) => {
                &&& amount_applied(
                    old(pool)@,
                    tick_lower,
                    tick_upper,
                    amount,
                    false,
                    is_initial_sync,
                ) == Err::<V3View, PoolSyncError>(e)
                &&& final(pool)@ == old(pool)@
            },
        },
{
    if amount > 0x7fff_ffff_ffff_ffff_ffff_ffff_ffff_ffffu128 {
        return Err(PoolSyncError::LiquidityOverflow);
    }
    modify_position(pool, tick_lower, tick_upper, amount as i128, is_initial_sync)
}

/// Folds a swap into the pool: tick, price and aggregate liquidity are
/// overwritten with the values after the swap.
pub fn process_swap(pool: &mut UniswapV3Pool, tick: i32, sqrt_price: U256, liquidity: u128)
    ensures
        final(pool)@ == swap_applied(old(pool)@, tick, sqrt_price, liquidity),
        ledger_consistent(old(pool)@) ==> ledger_consistent(final(pool)@),
{
    proof {
        if ledger_consistent(pool@) {
            lemma_event_keeps_ledger(
                pool@,
                PoolEvent::Swap { tick, sqrt_price, liquidity },
                false,
            );
        }
    }
    pool.tick = tick;
    pool.sqrt_price = sqrt_price;
    pool.liquidity = liquidity;
}

/// Folds one event into a concentrated-liquidity pool, by the event's kind.
///
/// A rejected event leaves the pool as it was.
pub fn process_tick_data(
    pool: &mut UniswapV3Pool,
    event: &PoolEvent,
    _pool_type: PoolType,
    is_initial_sync: bool,
) -> (r: Result<(), PoolSyncError>)
    ensures
        match r {
            Ok(_) => event_applied(old(pool)@, *event, is_initial_sync) == Ok::<
                V3View,
                PoolSyncError,
            >(final(pool)@),
            Err(e) => {
                &&& event_applied(old(pool)@, *event, is_initial_sync) == Err::<
                    V3View,
                    PoolSyncError,
                >(e)
                &&& final(pool)@ == old(pool)@
            },
        },
        ledger_consistent(old(pool)@) && event_usable(*event, old(pool)@.tick_spacing)
            ==> ledger_consistent(final(pool)@),
{
    proof {
        if ledger_consistent(pool@) && event_usable(*event, pool@.tick_spacing) && event_applied(
            pool@,
            *event,
            is_initial_sync,
        ) is Ok {
            lemma_event_keeps_ledger(pool@, *event, is_initial_sync);
        }
    }
    match event {
        PoolEvent::Burn { tick_lower, tick_upper, amount } => process_burn(
            pool,
            *tick_lower,
            *tick_upper,
            *amount,
            is_initial_sync,
        ),
        PoolEvent::Mint { tick_lower, tick_upper, amount } => process_mint(
            pool,
            *tick_lower,
            *tick_upper,
            *amount,
            is_initial_sync,
        ),
        PoolEvent::Swap { tick, sqrt_price, liquidity } => {
            process_swap(pool, *tick, *sqrt_price, *liquidity);
            Ok(())
        },
        PoolEvent::Sync { .. } => Ok(()),
    }
}

/// The number of fields that a bulk-read record of a concentrated-liquidity
/// pool must hold.
pub const V3_FIELDS: usize = 10;

/// The pool that a bulk-read record describes: address, token0 and its
/// decimals, token1 and its decimals, liquidity, price, tick, tick spacing
/// and fee, in this order; names, ledger and bitmap start empty. A record
/// with too few fields, or with a field of the wrong type where an address or
/// an unsigned number is expected, is rejected.
pub open spec fn v3_decoded(data: Seq<AbiValue>) -> Result<V3View, PoolSyncError> {
    if data.len() < V3_FIELDS || data[0].spec_address() is Err || data[1].spec_address() is Err
        || data[2].spec_decimals() is Err || data[3].spec_address() is Err
        || data[4].spec_decimals() is Err || data[5].spec_liquidity() is Err
        || data[6].spec_uint() is Err || data[9].spec_fee() is Err {
        Err(PoolSyncError::MalformedRecord)
    } else {
        Ok(
            V3View {
                address: data[0].spec_address()->Ok_0,
                token0: data[1].spec_address()->Ok_0,
                token1: data[3].spec_address()->Ok_0,
                token0_name: Seq::empty(),
                token1_name: Seq::empty(),
                token0_decimals: data[2].spec_decimals()->Ok_0,
                token1_decimals: data[4].spec_decimals()->Ok_0,
                liquidity: data[5].spec_liquidity()->Ok_0,
                sqrt_price: data[6].spec_uint()->Ok_0,
                fee: data[9].spec_fee()->Ok_0,
                tick: data[7].spec_tick(),
                tick_spacing: data[8].spec_tick(),
                tick_bitmap: Map::empty(),
                ticks: Map::empty(),
            },
        )
    }
}

impl UniswapV3Pool {
    /// Builds the pool that a bulk-read record describes.
    pub fn from_values(data: &[AbiValue]) -> (r: Result<UniswapV3Pool, PoolSyncError>)
        ensures
            match r {
                Ok(pool) => {
                    &&& v3_decoded(data@) == Ok::<V3View, PoolSyncError>(pool@)
                    &&& pool@.tick_spacing > 0 ==> ledger_consistent(pool@)
                },
                Err(e) => v3_decoded(data@) == Err::<V3View, PoolSyncError>(e),
            },
    {
        if data.len() < V3_FIELDS {
            return Err(PoolSyncError::MalformedRecord);
        }
        let address: Address = match data[0].as_address() {
            Ok(a) => a,
            Err(e) => {
                return Err(e);
            },
        };
        let token0: Address = match data[1].as_address() {
            Ok(a) => a,
            Err(e) => {
                return Err(e);
            },
        };
        let token0_decimals: u8 = match data[2].as_decimals() {
            Ok(d) => d,
            Err(e) => {
                return Err(e);
            },
        };
        let token1: Address = match data[3].as_address() {
            Ok(a) => a,
            Err(e) => {
                return Err(e);
            },
        };
        let token1_decimals: u8 = match data[4].as_decimals() {
            Ok(d) => d,
            Err(e) => {
                return Err(e);
            },
        };
        let liquidity: u128 = match data[5].as_liquidity() {
            Ok(l) => l,
            Err(e) => {
                return Err(e);
            },
        };
        let sqrt_price: U256 = match data[6].as_uint() {
            Ok(p) => p,
            Err(e) => {
                return Err(e);
            },
        };
        let fee: u32 = match data[9].as_fee() {
            Ok(f) => f,
            Err(e) => {
                return Err(e);
            },
        };
        let pool = UniswapV3Pool {
            address,
            token0,
            token1,
            token0_name: String::new(),
            token1_name: String::new(),
            token0_decimals,
            token1_decimals,
            liquidity,
            sqrt_price,
            fee,
            tick: data[7].as_tick(),
            tick_spacing: data[8].as_tick(),
            tick_bitmap: HashMap::new(),
            ticks: HashMap::new(),
        };
        proof {
            assert(pool@.token0_name =~= Seq::empty());
            assert(pool@.token1_name =~= Seq::empty());
            if pool@.tick_spacing > 0 {
                lemma_empty_ledger_consistent(pool@);
            }
        }
        Ok(pool)
    }
}

} // verus!
