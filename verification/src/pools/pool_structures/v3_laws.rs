//! What holds of the tick ledger and its bitmap under mints and burns.

use vstd::prelude::*;
use crate::pools::pool_structures::v3_structure::{
    amount_applied, bit_marked, bitmap_bit, bitmap_flipped, bitmap_word, compressed_tick,
    event_applied, gross_flips, info_at, ledger_consistent, lemma_quotient_bounds,
    position_modified, position_updated, quotient_defined, quotient_toward_zero, swap_applied,
    tick_updated, tick_usable, word_at, MAX_EVENT_TICK, MIN_EVENT_TICK, TickInfo, V3View,
};
use crate::events::PoolEvent;
use crate::primitives::{lemma_toggle_bits, lemma_toggle_pair_twice, lemma_toggle_twice, U256};

verus! {

/// Whether a compressed tick fits the 24 bits of an event's tick field.
pub open spec fn fits_event_tick(compressed: int) -> bool {
    MIN_EVENT_TICK <= compressed <= MAX_EVENT_TICK
}

/// Bitmap addressing is exact: for a tick and a spacing whose quotient fits
/// 24 bits, the word and the bit computed for the tick give the quotient
/// back as `word * 256 + bit`, for negative ticks as for positive ones.
pub proof fn lemma_position_decodes(tick: i32, spacing: i32)
    requires
        quotient_defined(tick, spacing),
        fits_event_tick(quotient_toward_zero(tick as int, spacing as int)),
    ensures
        bitmap_word(compressed_tick(tick, spacing)) * 256 + bitmap_bit(
            compressed_tick(tick, spacing),
        ) == quotient_toward_zero(tick as int, spacing as int),
        0 <= bitmap_bit(compressed_tick(tick, spacing)) < 256,
{
}

/// Two compressed ticks of 24 bits share their bit only if they are equal.
pub proof fn lemma_position_injective(a: i32, b: i32)
    requires
        fits_event_tick(a as int),
        fits_event_tick(b as int),
        bitmap_word(a) == bitmap_word(b),
        bitmap_bit(a) == bitmap_bit(b),
    ensures
        a == b,
{
}

/// Inverting the bit of one compressed tick changes the mark of that tick
/// and of no other tick of 24 bits.
pub proof fn lemma_flip_marks(bitmap: Map<i16, U256>, flipped: i32, other: i32)
    requires
        fits_event_tick(flipped as int),
        fits_event_tick(other as int),
    ensures
        bit_marked(bitmap_flipped(bitmap, flipped), other) == (bit_marked(bitmap, other) != (other
            == flipped)),
{
    let w = bitmap_word(flipped);
    lemma_toggle_bits(word_at(bitmap, w), bitmap_bit(flipped) as int);
    if bitmap_word(other) == w {
        if bitmap_bit(other) == bitmap_bit(flipped) {
            lemma_position_injective(flipped, other);
        }
        assert(word_at(bitmap_flipped(bitmap, flipped), w) == word_at(bitmap, w).spec_toggle(
            bitmap_bit(flipped) as int,
        ));
    } else {
        assert(word_at(bitmap_flipped(bitmap, flipped), bitmap_word(other)) == word_at(
            bitmap,
            bitmap_word(other),
        ));
    }
}

/// Dividing a usable tick by the spacing leaves no remainder, and the
/// quotient fits 24 bits.
pub proof fn lemma_usable_quotient(tick: i32, spacing: i32)
    requires
        tick_usable(tick, spacing),
    ensures
        quotient_defined(tick, spacing),
        compressed_tick(tick, spacing) * spacing == tick,
        fits_event_tick(compressed_tick(tick, spacing) as int),
{
    let t: int = tick as int;
    let s: int = spacing as int;
    lemma_quotient_bounds(t, s);
    vstd::arithmetic::div_mod::lemma_fundamental_div_mod(t, s);
    if t < 0 {
        let k: int = t / s;
        assert(t == s * k);
        assert(-t == (-k) * s) by (nonlinear_arith)
            requires
                t == s * k,
        ;
        vstd::arithmetic::div_mod::lemma_mod_multiples_basic(-k, s);
        vstd::arithmetic::div_mod::lemma_fundamental_div_mod(-t, s);
        assert((-((-t) / s)) * s == t) by (nonlinear_arith)
            requires
                -t == s * ((-t) / s),
        ;
    } else {
        assert((t / s) * s == t) by (nonlinear_arith)
            requires
                t == s * (t / s),
        ;
    }
}

/// A change of position over two usable ticks keeps the ledger consistent:
/// afterwards, as before, a usable tick is recorded exactly when its bitmap
/// bit is set, and every recorded tick is referenced.
pub proof fn lemma_position_keeps_ledger(
    v: V3View,
    tick_lower: i32,
    tick_upper: i32,
    delta: int,
    is_initial_sync: bool,
)
    requires
        ledger_consistent(v),
        tick_usable(tick_lower, v.tick_spacing),
        tick_usable(tick_upper, v.tick_spacing),
        position_modified(v, tick_lower, tick_upper, delta, is_initial_sync) is Ok,
    ensures
        ledger_consistent(
            position_modified(v, tick_lower, tick_upper, delta, is_initial_sync)->Ok_0,
        ),
{
    let s = v.tick_spacing;
    let u = position_updated(v, tick_lower, tick_upper, delta)->Ok_0;
    let w = position_modified(v, tick_lower, tick_upper, delta, is_initial_sync)->Ok_0;
    assert(w.ticks == u.ticks && w.tick_bitmap == u.tick_bitmap && w.tick_spacing == s);
    if delta != 0 {
        let before_lower = info_at(v.ticks, tick_lower);
        let after_lower = tick_updated(before_lower, delta, false)->Ok_0;
        let with_lower = v.ticks.insert(tick_lower, after_lower);
        let before_upper = info_at(with_lower, tick_upper);
        let after_upper = tick_updated(before_upper, delta, true)->Ok_0;
        let flipped_lower = gross_flips(before_lower, delta);
        let flipped_upper = gross_flips(before_upper, delta);
        let c_lower = compressed_tick(tick_lower, s);
        let c_upper = compressed_tick(tick_upper, s);
        let first = if flipped_lower {
            bitmap_flipped(v.tick_bitmap, c_lower)
        } else {
            v.tick_bitmap
        };
        lemma_usable_quotient(tick_lower, s);
        lemma_usable_quotient(tick_upper, s);
        assert(v.ticks.contains_key(tick_lower) <==> bit_marked(v.tick_bitmap, c_lower));
        assert(v.ticks.contains_key(tick_upper) <==> bit_marked(v.tick_bitmap, c_upper));
        assert forall|t: i32| #[trigger] u.ticks.contains_key(t) implies tick_usable(t, s)
            && u.ticks[t].liquidity_gross > 0 && u.ticks[t].initialized by {
            if t != tick_lower && t != tick_upper {
                assert(v.ticks.contains_key(t));
            }
        }
        assert forall|t: i32| tick_usable(t, s) implies (#[trigger] u.ticks.contains_key(t)
            <==> bit_marked(u.tick_bitmap, compressed_tick(t, s))) by {
            let c = compressed_tick(t, s);
            lemma_usable_quotient(t, s);
            lemma_flip_marks(v.tick_bitmap, c_lower, c);
            lemma_flip_marks(first, c_upper, c);
            assert(v.ticks.contains_key(t) <==> bit_marked(v.tick_bitmap, c));
            if t != tick_lower {
                assert(c != c_lower);
            }
            if t != tick_upper {
                assert(c != c_upper);
            }
        }
    }
}

/// Minting an amount over a range and then burning the same amount over the
/// same range gives the pool back: the burn is accepted, every tick record is
/// what it was before the mint, every bitmap word holds the bits it held, and
/// the aggregate liquidity and all other fields are unchanged.
pub proof fn lemma_mint_then_burn_restores(
    v: V3View,
    tick_lower: i32,
    tick_upper: i32,
    amount: u128,
    is_initial_sync: bool,
)
    requires
        ledger_consistent(v),
        tick_lower < tick_upper,
        amount_applied(v, tick_lower, tick_upper, amount, false, is_initial_sync) is Ok,
    ensures
        ({
            let minted = amount_applied(v, tick_lower, tick_upper, amount, false, is_initial_sync)->Ok_0;
            let burned = amount_applied(minted, tick_lower, tick_upper, amount, true, is_initial_sync);
            &&& burned is Ok
            &&& burned->Ok_0.ticks == v.ticks
            &&& forall|w: i16| #[trigger]
                word_at(burned->Ok_0.tick_bitmap, w) == word_at(v.tick_bitmap, w)
            &&& burned->Ok_0 == (V3View { tick_bitmap: burned->Ok_0.tick_bitmap, ..v })
        }),
{
    let s = v.tick_spacing;
    let delta: int = amount as int;
    let minted = amount_applied(v, tick_lower, tick_upper, amount, false, is_initial_sync)->Ok_0;
    if delta != 0 {
        let lower = info_at(v.ticks, tick_lower);
        let upper = info_at(v.ticks, tick_upper);
        let minted_lower = tick_updated(lower, delta, false)->Ok_0;
        let minted_upper = tick_updated(upper, delta, true)->Ok_0;
        assert(info_at(v.ticks.insert(tick_lower, minted_lower), tick_upper) == upper);
        assert(minted.ticks == v.ticks.insert(tick_lower, minted_lower).insert(
            tick_upper,
            minted_upper,
        ));
        assert(info_at(minted.ticks, tick_lower) == minted_lower);
        assert(tick_updated(minted_lower, -delta, false) is Ok);
        let burned_lower = tick_updated(minted_lower, -delta, false)->Ok_0;
        assert(info_at(minted.ticks.insert(tick_lower, burned_lower), tick_upper) == minted_upper);
        assert(tick_updated(minted_upper, -delta, true) is Ok);
        let burned_upper = tick_updated(minted_upper, -delta, true)->Ok_0;
        let flipped_lower = gross_flips(lower, delta);
        let flipped_upper = gross_flips(upper, delta);
        assert(gross_flips(minted_lower, -delta) == flipped_lower);
        assert(gross_flips(minted_upper, -delta) == flipped_upper);
        assert(v.ticks.contains_key(tick_lower) ==> lower.liquidity_gross > 0);
        assert(v.ticks.contains_key(tick_upper) ==> upper.liquidity_gross > 0);
        let burned = amount_applied(minted, tick_lower, tick_upper, amount, true, is_initial_sync);
        assert(burned is Ok);
        assert(burned->Ok_0.ticks =~= v.ticks);
        let c_lower = compressed_tick(tick_lower, s);
        let c_upper = compressed_tick(tick_upper, s);
        assert forall|w: i16| #[trigger]
            word_at(burned->Ok_0.tick_bitmap, w) == word_at(v.tick_bitmap, w) by {
            let x = word_at(v.tick_bitmap, w);
            lemma_toggle_twice(x, bitmap_bit(c_lower) as int);
            lemma_toggle_twice(x, bitmap_bit(c_upper) as int);
            lemma_toggle_pair_twice(x, bitmap_bit(c_lower) as int, bitmap_bit(c_upper) as int);
        }
    }
}

/// A pool with a positive tick spacing and neither tick records nor bitmap
/// words is consistent.
pub proof fn lemma_empty_ledger_consistent(v: V3View)
    requires
        v.tick_spacing > 0,
        v.ticks == Map::<i32, TickInfo>::empty(),
        v.tick_bitmap == Map::<i16, U256>::empty(),
    ensures
        ledger_consistent(v),
{
    assert forall|t: i32| tick_usable(t, v.tick_spacing) implies (#[trigger] v.ticks.contains_key(t)
        <==> bit_marked(v.tick_bitmap, compressed_tick(t, v.tick_spacing))) by {
        let c = compressed_tick(t, v.tick_spacing);
        let k: u64 = ((bitmap_bit(c) as int) % 64) as u64;
        assert((0u64 >> k) & 1u64 != 1u64) by (bit_vector);
    }
}

/// Folding in the same swap twice gives what folding it in once gives.
pub proof fn lemma_swap_idempotent(v: V3View, tick: i32, sqrt_price: U256, liquidity: u128)
    ensures
        swap_applied(swap_applied(v, tick, sqrt_price, liquidity), tick, sqrt_price, liquidity)
            == swap_applied(v, tick, sqrt_price, liquidity),
{
}

/// Whether the ticks that an event names can bound a position of a pool
/// with the given spacing; events without ticks of their own always can.
pub open spec fn event_usable(event: PoolEvent, spacing: i32) -> bool {
    match event {
        PoolEvent::Mint { tick_lower, tick_upper, .. } => tick_usable(tick_lower, spacing)
            && tick_usable(tick_upper, spacing),
        PoolEvent::Burn { tick_lower, tick_upper, .. } => tick_usable(tick_lower, spacing)
            && tick_usable(tick_upper, spacing),
        _ => true,
    }
}

/// Every accepted event whose ticks are usable keeps the ledger consistent,
/// and no event changes the tick spacing.
pub proof fn lemma_event_keeps_ledger(v: V3View, event: PoolEvent, is_initial_sync: bool)
    requires
        ledger_consistent(v),
        event_usable(event, v.tick_spacing),
        event_applied(v, event, is_initial_sync) is Ok,
    ensures
        ledger_consistent(event_applied(v, event, is_initial_sync)->Ok_0),
        event_applied(v, event, is_initial_sync)->Ok_0.tick_spacing == v.tick_spacing,
{
    match event {
        PoolEvent::Mint { tick_lower, tick_upper, amount } => {
            lemma_position_keeps_ledger(v, tick_lower, tick_upper, amount as int, is_initial_sync);
        },
        PoolEvent::Burn { tick_lower, tick_upper, amount } => {
            lemma_position_keeps_ledger(v, tick_lower, tick_upper, -(amount as int), is_initial_sync);
        },
        PoolEvent::Swap { tick, sqrt_price, liquidity } => {
            let u = swap_applied(v, tick, sqrt_price, liquidity);
            assert(u.ticks == v.ticks && u.tick_bitmap == v.tick_bitmap && u.tick_spacing
                == v.tick_spacing);
        },
        PoolEvent::Sync { .. } => {},
    }
}

/// Whether two pools agree in everything that a mint or a burn reads and
/// writes apart from the aggregate liquidity: the tick records, the bitmap,
/// the tick spacing, and what identifies the pool. The current tick, the
/// price and the aggregate liquidity may differ.
pub open spec fn same_ledger(u: V3View, v: V3View) -> bool {
    u == (V3View { liquidity: u.liquidity, tick: u.tick, sqrt_price: u.sqrt_price, ..v })
}

/// The tick records and the bitmap that an event leaves do not depend on
/// the aggregate liquidity, the current tick, the price or the initial-sync
/// flag: two pools with the same ledger that both accept the event have the
/// same ledger after it.
pub proof fn lemma_event_keeps_same_ledger(
    u: V3View,
    v: V3View,
    event: PoolEvent,
    u_initial: bool,
    v_initial: bool,
)
    requires
        same_ledger(u, v),
        event_applied(u, event, u_initial) is Ok,
        event_applied(v, event, v_initial) is Ok,
    ensures
        same_ledger(
            event_applied(u, event, u_initial)->Ok_0,
            event_applied(v, event, v_initial)->Ok_0,
        ),
{
    match event {
        PoolEvent::Mint { tick_lower, tick_upper, amount } => {
            let d: int = amount as int;
            assert(position_updated(u, tick_lower, tick_upper, d) is Ok);
            assert(position_updated(v, tick_lower, tick_upper, d) is Ok);
            assert(position_updated(u, tick_lower, tick_upper, d)->Ok_0.ticks == position_updated(
                v,
                tick_lower,
                tick_upper,
                d,
            )->Ok_0.ticks);
            assert(position_updated(u, tick_lower, tick_upper, d)->Ok_0.tick_bitmap
                == position_updated(v, tick_lower, tick_upper, d)->Ok_0.tick_bitmap);
        },
        PoolEvent::Burn { tick_lower, tick_upper, amount } => {
            let d: int = -(amount as int);
            assert(position_updated(u, tick_lower, tick_upper, d) is Ok);
            assert(position_updated(v, tick_lower, tick_upper, d) is Ok);
            assert(position_updated(u, tick_lower, tick_upper, d)->Ok_0.ticks == position_updated(
                v,
                tick_lower,
                tick_upper,
                d,
            )->Ok_0.ticks);
            assert(position_updated(u, tick_lower, tick_upper, d)->Ok_0.tick_bitmap
                == position_updated(v, tick_lower, tick_upper, d)->Ok_0.tick_bitmap);
        },
        PoolEvent::Swap { .. } => {},
        PoolEvent::Sync { .. } => {},
    }
}

} // verus!
