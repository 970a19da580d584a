use std::collections::HashMap;

use pool_sync::errors::PoolSyncError;
use pool_sync::events::PoolEvent;
use pool_sync::pools::pool_structures::v3_structure::{
    bitmap_position, compress, flip_tick, magnitude, modify_position, process_burn, process_mint,
    process_swap, process_tick_data, update_position, update_tick, TickInfo, UniswapV3Pool,
};
use pool_sync::pools::PoolType;
use pool_sync::primitives::{Address, U256};

fn address(last: u8) -> Address {
    let mut bytes = [0u8; 20];
    bytes[19] = last;
    Address::new(bytes)
}

fn pool(tick: i32, tick_spacing: i32, liquidity: u128) -> UniswapV3Pool {
    UniswapV3Pool {
        address: address(1),
        token0: address(2),
        token1: address(3),
        token0_name: String::new(),
        token1_name: String::new(),
        token0_decimals: 18,
        token1_decimals: 6,
        liquidity,
        sqrt_price: U256::from_u64(79228162514264337),
        fee: 3000,
        tick,
        tick_spacing,
        tick_bitmap: HashMap::new(),
        ticks: HashMap::new(),
    }
}

fn bit_of(pool: &UniswapV3Pool, compressed: i32) -> bool {
    let (word, bit) = bitmap_position(compressed);
    match pool.tick_bitmap.get(&word) {
        Some(w) => w.get_bit(bit),
        None => false,
    }
}

#[test]
fn position_of_positive_ticks() {
    assert_eq!(bitmap_position(0), (0, 0));
    assert_eq!(bitmap_position(1), (0, 1));
    assert_eq!(bitmap_position(255), (0, 255));
    assert_eq!(bitmap_position(256), (1, 0));
    assert_eq!(bitmap_position(887272), (3465, 232));
}

#[test]
fn position_of_negative_ticks_rounds_down() {
    assert_eq!(bitmap_position(-1), (-1, 255));
    assert_eq!(bitmap_position(-255), (-1, 1));
    assert_eq!(bitmap_position(-256), (-1, 0));
    assert_eq!(bitmap_position(-257), (-2, 255));
    assert_eq!(bitmap_position(-887272), (-3466, 24));
}

#[test]
fn position_decodes_back_to_the_compressed_tick() {
    for c in [-8388608i32, -70000, -513, -512, -1, 0, 1, 511, 512, 70000, 8388607] {
        let (word, bit) = bitmap_position(c);
        assert_eq!(word as i32 * 256 + bit as i32, c);
    }
}

#[test]
fn compress_rounds_towards_zero() {
    assert_eq!(compress(100, 10), Some(10));
    assert_eq!(compress(-100, 10), Some(-10));
    assert_eq!(compress(-105, 10), Some(-10));
    assert_eq!(compress(105, 10), Some(10));
    assert_eq!(compress(7, -2), Some(-3));
    assert_eq!(compress(5, 0), None);
    assert_eq!(compress(i32::MIN, -1), None);
    assert_eq!(compress(i32::MIN, 1), Some(i32::MIN));
}

#[test]
fn magnitude_of_signed_quantities() {
    assert_eq!(magnitude(0), 0);
    assert_eq!(magnitude(500), 500);
    assert_eq!(magnitude(-500), 500);
    assert_eq!(magnitude(i128::MAX), i128::MAX as u128);
    assert_eq!(magnitude(i128::MIN), 1u128 << 127);
}

#[test]
fn update_tick_on_a_fresh_lower_boundary() {
    let mut p = pool(0, 10, 1000);
    assert_eq!(update_tick(&mut p, -100, 500, false), Ok(true));
    assert_eq!(
        p.ticks.get(&-100),
        Some(&TickInfo { liquidity_net: 500, initialized: true, liquidity_gross: 500 })
    );
    assert_eq!(p.ticks.len(), 1);
}

#[test]
fn update_tick_on_an_upper_boundary_subtracts_net() {
    let mut p = pool(0, 10, 1000);
    assert_eq!(update_tick(&mut p, 100, 500, true), Ok(true));
    assert_eq!(
        p.ticks.get(&100),
        Some(&TickInfo { liquidity_net: -500, initialized: true, liquidity_gross: 500 })
    );
    assert_eq!(update_tick(&mut p, 100, 200, false), Ok(false));
    assert_eq!(
        p.ticks.get(&100),
        Some(&TickInfo { liquidity_net: -300, initialized: true, liquidity_gross: 700 })
    );
}

#[test]
fn update_tick_rejects_underflow_and_keeps_the_pool() {
    let mut p = pool(0, 10, 1000);
    assert_eq!(update_tick(&mut p, 50, 100, false), Ok(true));
    assert_eq!(update_tick(&mut p, 50, -101, false), Err(PoolSyncError::LiquidityUnderflow));
    assert_eq!(
        p.ticks.get(&50),
        Some(&TickInfo { liquidity_net: 100, initialized: true, liquidity_gross: 100 })
    );
    assert_eq!(update_tick(&mut p, 60, -1, false), Err(PoolSyncError::LiquidityUnderflow));
    assert!(p.ticks.get(&60).is_none());
}

#[test]
fn update_tick_rejects_overflow() {
    let mut p = pool(0, 10, 1000);
    p.ticks.insert(
        7,
        TickInfo { liquidity_net: 0, initialized: true, liquidity_gross: u128::MAX },
    );
    assert_eq!(update_tick(&mut p, 7, 1, false), Err(PoolSyncError::LiquidityOverflow));
    p.ticks.insert(
        8,
        TickInfo { liquidity_net: i128::MAX, initialized: true, liquidity_gross: 5 },
    );
    assert_eq!(update_tick(&mut p, 8, 1, false), Err(PoolSyncError::LiquidityOverflow));
    assert_eq!(update_tick(&mut p, 8, 1, true), Ok(false));
}

#[test]
fn flip_tick_sets_and_clears_a_bit() {
    let mut p = pool(0, 10, 0);
    assert_eq!(flip_tick(&mut p, -100, 10), Ok(()));
    assert!(bit_of(&p, -10));
    assert_eq!(p.tick_bitmap.get(&-1), Some(&U256 { w0: 0, w1: 0, w2: 0, w3: 1u64 << 54 }));
    assert_eq!(flip_tick(&mut p, 100, 10), Ok(()));
    assert_eq!(p.tick_bitmap.get(&0), Some(&U256 { w0: 1u64 << 10, w1: 0, w2: 0, w3: 0 }));
    assert_eq!(flip_tick(&mut p, -100, 10), Ok(()));
    assert!(!bit_of(&p, -10));
    assert!(bit_of(&p, 10));
    assert_eq!(p.tick_bitmap.get(&-1), Some(&U256::zero()));
}

#[test]
fn flip_tick_rejects_a_spacing_of_zero() {
    let mut p = pool(0, 0, 0);
    assert_eq!(flip_tick(&mut p, 100, 0), Err(PoolSyncError::InvalidTickSpacing));
    assert!(p.tick_bitmap.is_empty());
    assert_eq!(flip_tick(&mut p, i32::MIN, -1), Err(PoolSyncError::InvalidTickSpacing));
    assert!(p.tick_bitmap.is_empty());
}

#[test]
fn mint_during_initial_sync_keeps_the_aggregate_liquidity() {
    let mut p = pool(0, 10, 123456);
    assert_eq!(modify_position(&mut p, -100, 100, 500, true), Ok(()));
    assert_eq!(p.liquidity, 123456);
    assert_eq!(
        p.ticks.get(&-100),
        Some(&TickInfo { liquidity_net: 500, initialized: true, liquidity_gross: 500 })
    );
    assert_eq!(
        p.ticks.get(&100),
        Some(&TickInfo { liquidity_net: -500, initialized: true, liquidity_gross: 500 })
    );
    assert!(bit_of(&p, -10));
    assert!(bit_of(&p, 10));
}

#[test]
fn burn_in_steady_state_lowers_liquidity_and_clears_the_ticks() {
    let mut p = pool(0, 10, 123456);
    assert_eq!(modify_position(&mut p, -100, 100, 500, true), Ok(()));
    assert_eq!(modify_position(&mut p, -100, 100, -500, false), Ok(()));
    assert_eq!(p.liquidity, 122956);
    assert!(p.ticks.is_empty());
    assert!(!bit_of(&p, -10));
    assert!(!bit_of(&p, 10));
}

#[test]
fn mint_in_steady_state_moves_liquidity_only_inside_the_range() {
    let mut inside = pool(0, 10, 1000);
    assert_eq!(modify_position(&mut inside, -100, 100, 500, false), Ok(()));
    assert_eq!(inside.liquidity, 1500);
    let mut at_lower = pool(-100, 10, 1000);
    assert_eq!(modify_position(&mut at_lower, -100, 100, 500, false), Ok(()));
    assert_eq!(at_lower.liquidity, 1500);
    let mut at_upper = pool(100, 10, 1000);
    assert_eq!(modify_position(&mut at_upper, -100, 100, 500, false), Ok(()));
    assert_eq!(at_upper.liquidity, 1000);
    let mut below = pool(-101, 10, 1000);
    assert_eq!(modify_position(&mut below, -100, 100, 500, false), Ok(()));
    assert_eq!(below.liquidity, 1000);
}

#[test]
fn mint_then_burn_restores_ticks_and_bits() {
    let mut p = pool(5, 10, 1000);
    assert_eq!(modify_position(&mut p, -200, 300, 70, false), Ok(()));
    let ticks_before = p.ticks.clone();
    let liquidity_before = p.liquidity;
    assert_eq!(modify_position(&mut p, -200, 100, 500, false), Ok(()));
    assert_eq!(modify_position(&mut p, -200, 100, -500, false), Ok(()));
    assert_eq!(p.ticks, ticks_before);
    assert_eq!(p.liquidity, liquidity_before);
    assert!(bit_of(&p, -20));
    assert!(bit_of(&p, 30));
    assert!(!bit_of(&p, 10));
}

#[test]
fn partial_burn_keeps_the_ticks() {
    let mut p = pool(0, 1, 0);
    assert_eq!(modify_position(&mut p, -5, 5, 500, false), Ok(()));
    assert_eq!(modify_position(&mut p, -5, 5, -200, false), Ok(()));
    assert_eq!(p.liquidity, 300);
    assert_eq!(
        p.ticks.get(&-5),
        Some(&TickInfo { liquidity_net: 300, initialized: true, liquidity_gross: 300 })
    );
    assert_eq!(
        p.ticks.get(&5),
        Some(&TickInfo { liquidity_net: -300, initialized: true, liquidity_gross: 300 })
    );
    assert!(bit_of(&p, -5));
    assert!(bit_of(&p, 5));
}

#[test]
fn burn_of_more_than_there_is_is_rejected_whole() {
    let mut p = pool(0, 10, 1000);
    assert_eq!(modify_position(&mut p, -100, 100, 500, false), Ok(()));
    let ticks_before = p.ticks.clone();
    let bitmap_before = p.tick_bitmap.clone();
    assert_eq!(
        modify_position(&mut p, -100, 100, -501, false),
        Err(PoolSyncError::LiquidityUnderflow)
    );
    assert_eq!(p.ticks, ticks_before);
    assert_eq!(p.tick_bitmap, bitmap_before);
    assert_eq!(p.liquidity, 1500);
    assert_eq!(modify_position(&mut p, -100, 200, -500, false), Err(PoolSyncError::LiquidityUnderflow));
    assert_eq!(p.ticks, ticks_before);
}

#[test]
fn aggregate_liquidity_underflow_is_rejected_whole() {
    let mut p = pool(0, 10, 100);
    assert_eq!(modify_position(&mut p, -100, 100, 500, true), Ok(()));
    let ticks_before = p.ticks.clone();
    assert_eq!(
        modify_position(&mut p, -100, 100, -500, false),
        Err(PoolSyncError::LiquidityUnderflow)
    );
    assert_eq!(p.ticks, ticks_before);
    assert_eq!(p.liquidity, 100);
}

#[test]
fn aggregate_liquidity_overflow_is_rejected_whole() {
    let mut p = pool(0, 10, u128::MAX);
    assert_eq!(modify_position(&mut p, -100, 100, 1, false), Err(PoolSyncError::LiquidityOverflow));
    assert!(p.ticks.is_empty());
    assert!(p.tick_bitmap.is_empty());
}

#[test]
fn a_flip_with_spacing_zero_is_rejected_whole() {
    let mut p = pool(0, 0, 100);
    assert_eq!(
        modify_position(&mut p, -100, 100, 500, false),
        Err(PoolSyncError::InvalidTickSpacing)
    );
    assert!(p.ticks.is_empty());
    assert_eq!(p.liquidity, 100);
    assert_eq!(modify_position(&mut p, -100, 100, 0, false), Ok(()));
    assert!(p.ticks.is_empty());
}

#[test]
fn update_position_leaves_liquidity_alone() {
    let mut p = pool(0, 10, 1000);
    assert_eq!(update_position(&mut p, -100, 100, 500), Ok(()));
    assert_eq!(p.liquidity, 1000);
    assert_eq!(p.ticks.len(), 2);
    assert_eq!(update_position(&mut p, -100, 100, -500), Ok(()));
    assert!(p.ticks.is_empty());
}

#[test]
fn process_mint_and_burn_take_unsigned_amounts() {
    let mut p = pool(0, 10, 1000);
    assert_eq!(process_mint(&mut p, -100, 100, 500, false), Ok(()));
    assert_eq!(p.liquidity, 1500);
    assert_eq!(process_burn(&mut p, -100, 100, 200, false), Ok(()));
    assert_eq!(p.liquidity, 1300);
    assert_eq!(
        process_mint(&mut p, -100, 100, (i128::MAX as u128) + 1, false),
        Err(PoolSyncError::LiquidityOverflow)
    );
    assert_eq!(
        process_burn(&mut p, -100, 100, u128::MAX, false),
        Err(PoolSyncError::LiquidityOverflow)
    );
    assert_eq!(p.liquidity, 1300);
}

#[test]
fn swap_overwrites_tick_price_and_liquidity() {
    let mut p = pool(0, 10, 1000);
    process_swap(&mut p, -42, U256::from_u64(77), 999);
    assert_eq!(p.tick, -42);
    assert_eq!(p.sqrt_price, U256::from_u64(77));
    assert_eq!(p.liquidity, 999);
    process_swap(&mut p, -42, U256::from_u64(77), 999);
    assert_eq!(p.tick, -42);
    assert_eq!(p.sqrt_price, U256::from_u64(77));
    assert_eq!(p.liquidity, 999);
}

#[test]
fn events_are_dispatched_by_kind() {
    let mut p = pool(0, 10, 1000);
    let mint = PoolEvent::Mint { tick_lower: -100, tick_upper: 100, amount: 500 };
    let burn = PoolEvent::Burn { tick_lower: -100, tick_upper: 100, amount: 500 };
    let swap = PoolEvent::Swap { tick: 7, sqrt_price: U256::from_u64(5), liquidity: 10 };
    let sync = PoolEvent::Sync { reserve0: U256::from_u64(1), reserve1: U256::from_u64(2) };
    assert_eq!(process_tick_data(&mut p, &mint, PoolType::UniswapV3, false), Ok(()));
    assert_eq!(p.liquidity, 1500);
    assert_eq!(process_tick_data(&mut p, &sync, PoolType::UniswapV3, false), Ok(()));
    assert_eq!(p.liquidity, 1500);
    assert_eq!(p.ticks.len(), 2);
    assert_eq!(process_tick_data(&mut p, &burn, PoolType::UniswapV3, false), Ok(()));
    assert_eq!(p.liquidity, 1000);
    assert!(p.ticks.is_empty());
    assert_eq!(process_tick_data(&mut p, &swap, PoolType::Agni, false), Ok(()));
    assert_eq!((p.tick, p.liquidity), (7, 10));
    assert_eq!(
        process_tick_data(&mut p, &burn, PoolType::UniswapV3, false),
        Err(PoolSyncError::LiquidityUnderflow)
    );
}

#[test]
fn tick_presence_matches_the_bitmap_after_every_change() {
    let mut p = pool(0, 60, 0);
    let steps: [(i32, i32, i128); 6] = [
        (-600, 600, 1000),
        (-600, 120, 50),
        (0, 600, 7),
        (-600, 120, -50),
        (-600, 600, -1000),
        (0, 600, -7),
    ];
    for (lower, upper, delta) in steps {
        assert_eq!(modify_position(&mut p, lower, upper, delta, false), Ok(()));
        for tick in [-600i32, 0, 120, 600, 60, -60] {
            let present = p.ticks.contains_key(&tick);
            assert_eq!(present, bit_of(&p, tick / 60));
            if present {
                assert!(p.ticks[&tick].liquidity_gross > 0);
            }
        }
    }
    assert!(p.ticks.is_empty());
    assert_eq!(p.liquidity, 0);
}

#[test]
fn default_tick_info_is_empty() {
    assert_eq!(
        TickInfo::default(),
        TickInfo { liquidity_net: 0, initialized: false, liquidity_gross: 0 }
    );
}
