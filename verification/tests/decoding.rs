use pool_sync::errors::PoolSyncError;
use pool_sync::pools::abi::{AbiValue, DEFAULT_DECIMALS, DEFAULT_FEE};
use pool_sync::pools::pool_builder::{apply_symbols, pools_from_records};
use pool_sync::pools::pool_structures::v2_structure::MerchantMoeV2Pool;
use pool_sync::pools::pool_structures::v3_structure::UniswapV3Pool;
use pool_sync::pools::{Pool, PoolInfo, PoolType};
use pool_sync::primitives::{Address, U256};

fn address(last: u8) -> Address {
    let mut bytes = [0u8; 20];
    bytes[19] = last;
    Address::new(bytes)
}

fn unsigned(n: u64, bits: usize) -> AbiValue {
    AbiValue::Uint(U256::from_u64(n), bits)
}

fn signed(n: i64, bits: usize) -> AbiValue {
    let fill = if n < 0 { u64::MAX } else { 0 };
    AbiValue::Int(U256 { w0: n as u64, w1: fill, w2: fill, w3: fill }, bits)
}

fn v3_record(pool: u8, token0: u8, token1: u8) -> Vec<AbiValue> {
    vec![
        AbiValue::Address(address(pool)),
        AbiValue::Address(address(token0)),
        unsigned(18, 8),
        AbiValue::Address(address(token1)),
        unsigned(6, 8),
        unsigned(123456, 128),
        unsigned(79228162514264337, 160),
        signed(-42, 24),
        signed(60, 24),
        unsigned(3000, 24),
    ]
}

fn v2_record(pool: u8, token0: u8, token1: u8) -> Vec<AbiValue> {
    vec![
        AbiValue::Address(address(pool)),
        AbiValue::Address(address(token0)),
        AbiValue::Address(address(token1)),
        unsigned(18, 8),
        unsigned(6, 8),
        unsigned(1000, 112),
        unsigned(2000, 112),
    ]
}

#[test]
fn field_readers_accept_their_own_type_only() {
    assert_eq!(AbiValue::Address(address(9)).as_address(), Ok(address(9)));
    assert_eq!(unsigned(1, 8).as_address(), Err(PoolSyncError::MalformedRecord));
    assert_eq!(unsigned(77, 160).as_uint(), Ok(U256::from_u64(77)));
    assert_eq!(signed(77, 24).as_uint(), Err(PoolSyncError::MalformedRecord));
    assert_eq!(AbiValue::Other.as_uint(), Err(PoolSyncError::MalformedRecord));
    assert_eq!(AbiValue::Other.as_decimals(), Err(PoolSyncError::MalformedRecord));
    assert_eq!(AbiValue::Other.as_fee(), Err(PoolSyncError::MalformedRecord));
    assert_eq!(AbiValue::Other.as_liquidity(), Err(PoolSyncError::MalformedRecord));
}

#[test]
fn wide_decimals_fall_back_to_eighteen() {
    assert_eq!(DEFAULT_DECIMALS, 18);
    assert_eq!(unsigned(6, 8).as_decimals(), Ok(6));
    assert_eq!(unsigned(255, 8).as_decimals(), Ok(255));
    assert_eq!(unsigned(256, 8).as_decimals(), Ok(18));
    assert_eq!(AbiValue::Uint(U256 { w0: 6, w1: 0, w2: 1, w3: 0 }, 256).as_decimals(), Ok(18));
}

#[test]
fn wide_fees_fall_back_to_three_thousand() {
    assert_eq!(DEFAULT_FEE, 3000);
    assert_eq!(unsigned(500, 24).as_fee(), Ok(500));
    assert_eq!(unsigned(u32::MAX as u64, 32).as_fee(), Ok(u32::MAX));
    assert_eq!(unsigned(u32::MAX as u64 + 1, 64).as_fee(), Ok(3000));
}

#[test]
fn wide_liquidity_falls_back_to_zero() {
    assert_eq!(AbiValue::Uint(U256::from_u128(u128::MAX), 128).as_liquidity(), Ok(u128::MAX));
    assert_eq!(AbiValue::Uint(U256 { w0: 1, w1: 0, w2: 1, w3: 0 }, 256).as_liquidity(), Ok(0));
}

#[test]
fn ticks_that_do_not_narrow_fall_back_to_zero() {
    assert_eq!(signed(-887272, 24).as_tick(), -887272);
    assert_eq!(signed(60, 24).as_tick(), 60);
    assert_eq!(signed(i32::MIN as i64, 32).as_tick(), i32::MIN);
    assert_eq!(signed(i32::MAX as i64 + 1, 64).as_tick(), 0);
    assert_eq!(signed(i32::MIN as i64 - 1, 64).as_tick(), 0);
    assert_eq!(unsigned(60, 24).as_tick(), 0);
    assert_eq!(AbiValue::Other.as_tick(), 0);
}

#[test]
fn v3_record_is_decoded_field_by_field() {
    let pool = UniswapV3Pool::from_values(&v3_record(1, 2, 3)).unwrap();
    assert_eq!(pool.address, address(1));
    assert_eq!(pool.token0, address(2));
    assert_eq!(pool.token1, address(3));
    assert_eq!(pool.token0_decimals, 18);
    assert_eq!(pool.token1_decimals, 6);
    assert_eq!(pool.liquidity, 123456);
    assert_eq!(pool.sqrt_price, U256::from_u64(79228162514264337));
    assert_eq!(pool.tick, -42);
    assert_eq!(pool.tick_spacing, 60);
    assert_eq!(pool.fee, 3000);
    assert_eq!(pool.token0_name, "");
    assert_eq!(pool.token1_name, "");
    assert!(pool.ticks.is_empty());
    assert!(pool.tick_bitmap.is_empty());
}

#[test]
fn v3_record_may_carry_more_fields() {
    let mut record = v3_record(1, 2, 3);
    record.push(signed(5, 128));
    assert!(UniswapV3Pool::from_values(&record).is_ok());
}

#[test]
fn short_or_mistyped_v3_records_are_rejected() {
    let mut short = v3_record(1, 2, 3);
    short.pop();
    assert_eq!(
        UniswapV3Pool::from_values(&short).err(),
        Some(PoolSyncError::MalformedRecord)
    );
    for i in [0usize, 1, 2, 3, 4, 5, 6, 9] {
        let mut record = v3_record(1, 2, 3);
        record[i] = AbiValue::Other;
        assert_eq!(
            UniswapV3Pool::from_values(&record).err(),
            Some(PoolSyncError::MalformedRecord)
        );
    }
    for i in [7usize, 8] {
        let mut record = v3_record(1, 2, 3);
        record[i] = AbiValue::Other;
        let pool = UniswapV3Pool::from_values(&record).unwrap();
        assert_eq!(if i == 7 { pool.tick } else { pool.tick_spacing }, 0);
    }
}

#[test]
fn v2_record_is_decoded_field_by_field() {
    let pool = MerchantMoeV2Pool::from_values(&v2_record(1, 2, 3)).unwrap();
    assert_eq!(pool.address, address(1));
    assert_eq!(pool.token0, address(2));
    assert_eq!(pool.token1, address(3));
    assert_eq!(pool.token0_decimals, 18);
    assert_eq!(pool.token1_decimals, 6);
    assert_eq!(pool.token0_reserves, U256::from_u64(1000));
    assert_eq!(pool.token1_reserves, U256::from_u64(2000));
    assert_eq!(pool.token0_name, "");
}

#[test]
fn short_or_mistyped_v2_records_are_rejected() {
    let mut short = v2_record(1, 2, 3);
    short.pop();
    assert_eq!(
        MerchantMoeV2Pool::from_values(&short).err(),
        Some(PoolSyncError::MalformedRecord)
    );
    for i in 0..7usize {
        let mut record = v2_record(1, 2, 3);
        record[i] = AbiValue::Other;
        assert_eq!(
            MerchantMoeV2Pool::from_values(&record).err(),
            Some(PoolSyncError::MalformedRecord)
        );
    }
}

#[test]
fn build_pool_picks_the_variant_of_the_type() {
    let uni = PoolType::UniswapV3.build_pool(&v3_record(1, 2, 3)).unwrap();
    assert!(matches!(uni, Pool::UniswapV3(_)));
    assert_eq!(uni.pool_type(), PoolType::UniswapV3);
    let agni = PoolType::Agni.build_pool(&v3_record(1, 2, 3)).unwrap();
    assert!(matches!(agni, Pool::Agni(_)));
    let moe = PoolType::MerchantMoe.build_pool(&v2_record(1, 2, 3)).unwrap();
    assert!(matches!(moe, Pool::MerchantMoe(_)));
    assert_eq!(
        PoolType::MerchantMoe.build_pool(&[AbiValue::Other]).err(),
        Some(PoolSyncError::MalformedRecord)
    );
}

#[test]
fn wrapping_a_record_in_the_wrong_family_is_rejected() {
    let v3 = UniswapV3Pool::from_values(&v3_record(1, 2, 3)).unwrap();
    let v2 = MerchantMoeV2Pool::from_values(&v2_record(1, 2, 3)).unwrap();
    assert_eq!(
        Pool::new_v3(PoolType::MerchantMoe, v3.clone()).err(),
        Some(PoolSyncError::MismatchedPoolType)
    );
    assert_eq!(
        Pool::new_v2(PoolType::UniswapV3, v2.clone()).err(),
        Some(PoolSyncError::MismatchedPoolType)
    );
    assert_eq!(
        Pool::new_v2(PoolType::Agni, v2.clone()).err(),
        Some(PoolSyncError::MismatchedPoolType)
    );
    assert!(Pool::new_v3(PoolType::Agni, v3).unwrap().is_v3());
    assert!(Pool::new_v2(PoolType::MerchantMoe, v2).unwrap().is_v2());
}

#[test]
fn pool_accessors_read_the_record() {
    let mut pool = PoolType::UniswapV3.build_pool(&v3_record(1, 2, 3)).unwrap();
    assert_eq!(pool.address(), address(1));
    assert_eq!(pool.token0_address(), address(2));
    assert_eq!(pool.token1_address(), address(3));
    assert_eq!(pool.token0_decimals(), 18);
    assert_eq!(pool.token1_decimals(), 6);
    assert_eq!(pool.fee(), 3000);
    assert!(!pool.stable());
    assert!(pool.is_v3() && !pool.is_v2());
    assert!(pool.get_v3().is_some() && pool.get_v2().is_none());
    assert!(pool.get_v2_mut().is_none());
    pool.get_v3_mut().unwrap().fee = 500;
    assert_eq!(pool.fee(), 500);
    let mut moe = PoolType::MerchantMoe.build_pool(&v2_record(4, 5, 6)).unwrap();
    assert_eq!(moe.fee(), 0);
    assert_eq!(moe.pool_type(), PoolType::MerchantMoe);
    assert!(moe.get_v2().is_some() && moe.get_v3().is_none());
    assert!(moe.get_v3_mut().is_none());
    moe.get_v2_mut().unwrap().token0_reserves = U256::from_u64(5);
    assert_eq!(moe.get_v2().unwrap().token0_reserves, U256::from_u64(5));
}

#[test]
fn names_are_set_one_by_one() {
    let mut pool = PoolType::Agni.build_pool(&v3_record(1, 2, 3)).unwrap();
    Pool::update_token0_name(&mut pool, String::from("WMNT"));
    assert_eq!(pool.token0_name(), "WMNT");
    assert_eq!(pool.token1_name(), "");
    Pool::update_token1_name(&mut pool, String::from("USDT"));
    assert_eq!(pool.token1_name(), "USDT");
    let mut moe = PoolType::MerchantMoe.build_pool(&v2_record(4, 5, 6)).unwrap();
    Pool::update_token1_name(&mut moe, String::from("MOE"));
    assert_eq!((moe.token0_name(), moe.token1_name()), (String::new(), String::from("MOE")));
}

#[test]
fn a_failed_symbol_read_leaves_the_name_empty() {
    let mut pool = PoolType::Agni.build_pool(&v3_record(1, 2, 3)).unwrap();
    apply_symbols(&mut pool, None, Some(String::from("USDT")));
    assert_eq!(pool.token0_name(), "");
    assert_eq!(pool.token1_name(), "USDT");
    apply_symbols(&mut pool, Some(String::from("WMNT")), None);
    assert_eq!(pool.token0_name(), "WMNT");
    assert_eq!(pool.token1_name(), "USDT");
}

#[test]
fn validity_needs_three_non_zero_addresses() {
    assert!(PoolType::Agni.build_pool(&v3_record(1, 2, 3)).unwrap().is_valid());
    assert!(!PoolType::Agni.build_pool(&v3_record(0, 2, 3)).unwrap().is_valid());
    assert!(!PoolType::Agni.build_pool(&v3_record(1, 0, 3)).unwrap().is_valid());
    assert!(!PoolType::Agni.build_pool(&v3_record(1, 2, 0)).unwrap().is_valid());
    assert!(!PoolType::MerchantMoe.build_pool(&v2_record(1, 2, 0)).unwrap().is_valid());
}

#[test]
fn invalid_records_are_dropped_in_silence() {
    let records = vec![v3_record(1, 2, 3), v3_record(0, 2, 3), v3_record(4, 5, 6), v3_record(7, 0, 9)];
    let pools = pools_from_records(PoolType::UniswapV3, &records).unwrap();
    assert_eq!(pools.len(), 2);
    assert_eq!(pools[0].address(), address(1));
    assert_eq!(pools[1].address(), address(4));
    assert_eq!(pools_from_records(PoolType::UniswapV3, &Vec::new()).unwrap().len(), 0);
}

#[test]
fn a_record_of_the_wrong_shape_fails_the_whole_read() {
    let records = vec![v3_record(1, 2, 3), v2_record(4, 5, 6)];
    assert_eq!(
        pools_from_records(PoolType::UniswapV3, &records).err(),
        Some(PoolSyncError::MalformedRecord)
    );
}

#[test]
fn pool_type_families() {
    assert!(PoolType::UniswapV3.is_v3() && !PoolType::UniswapV3.is_v2());
    assert!(PoolType::Agni.is_v3() && !PoolType::Agni.is_v2());
    assert!(PoolType::MerchantMoe.is_v2() && !PoolType::MerchantMoe.is_v3());
    assert_eq!(PoolType::UniswapV3.name(), "UniswapV3");
    assert_eq!(PoolType::MerchantMoe.name(), "MerchantMoe");
    assert_eq!(PoolType::Agni.name(), "Agni");
}
